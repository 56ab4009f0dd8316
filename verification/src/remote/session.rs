//! One remote run: which command comes next, and what its answer means.
//!
//! The plan is the plan: the same actions in the same order as without a daemon. The wire has
//! no command to verify and none to erase: the first is part of the write, and the second is a
//! write of its own.
//!
//! A device has no name on this wire. A command carries a position in the list that the daemon
//! last sent, so a run keeps the bus and the address of the row it picked, and finds that row
//! again whenever a newer list replaces the one it was picked from.
use vstd::prelude::*;
use vstd::string::*;

use crate::exit::OpClass;
use crate::images::Loaded;
use crate::model::{AltSel, Error, FileError, copy_bytes};
use crate::plan::{Action, BootstrapTrigger, Plan, Remote};
use crate::remote::crc::crc32;
use crate::remote::error::{Address, RemoteError};
use crate::remote::protocol::{BootPair, DeviceEntry, ERASE_ALT, ERASE_TOKEN, Request, UNKNOWN_VARIANT};
use crate::render::sanitise;
use crate::run::{Failure, class_of};
use crate::target::EMPTY_BUS_ADVICE;
use crate::text::{decimal_of, lossy, push_decimal, quoted, trim_newlines};
use crate::wait::{ARRIVED, POLL_INTERVAL, WAITING};

verus! {

/// What listing the devices is called in a message.
pub const LIST: &'static str = "the device list";

/// What reading the eFuse report is called.
pub const DIAG: &'static str = "the diagnostics";

/// What a bootstrap is called.
pub const BOOTSTRAP: &'static str = "the bootstrap";

/// What an erase is called, though the wire has no command of its own for it.
pub const ERASE: &'static str = "the erase";

/// What a write is called.
pub const WRITE: &'static str = "the write";

/// What a write is called whose one answer is about two things.
pub const WRITE_AND_VERIFY: &'static str = "the write and its verify";

/// What a read is called.
pub const READ: &'static str = "the read";

/// What a reboot is called.
pub const REBOOT: &'static str = "the reboot";

/// How often a run asks again what its target is, once it was seen half way into its boot.
pub const SETTLE_POLLS: u32 = 60;

// ---------------------------------------------------------------------------
// What is said.
// ---------------------------------------------------------------------------
/// Which machine does this.
pub open spec fn talking_text(at: Seq<char>) -> Seq<char> {
    "Talking to the dfu-remote daemon at "@
        + at
        + "."@
}

fn talking(at: &str) -> (text: String)
    ensures
        text@ == talking_text(at@),
{
    let mut text = "Talking to the dfu-remote daemon at ".to_owned();
    text.append(at);
    text.append(".");
    text
}

/// What a number means on the far side.
pub open spec fn alt_note_text(number: Seq<char>) -> Seq<char> {
    "--alt "@
        + number
        + " goes on the wire as the text \""@
        + number
        + "\", and the daemon tries an alt *named* \""@
        + number
        + "\" before falling back to alt number "@
        + number
        + ". Locally the number is the number and nothing else."@
}

fn alt_note(number: &str) -> (text: String)
    ensures
        text@ == alt_note_text(number@),
{
    let mut text = "--alt ".to_owned();
    text.append(number);
    text.append(" goes on the wire as the text \"");
    text.append(number);
    text.append("\", and the daemon tries an alt *named* \"");
    text.append(number);
    text.append("\" before falling back to alt number ");
    text.append(number);
    text.append(". Locally the number is the number and nothing else.");
    text
}

/// A list that cannot be read.
pub open spec fn unreadable_list_text(at: Seq<char>, reason: Seq<char>) -> Seq<char> {
    "the daemon at "@
        + at
        + " sent a device list this client cannot read: "@
        + reason
}

fn unreadable_list(at: &str, reason: &str) -> (text: String)
    ensures
        text@ == unreadable_list_text(at@, reason@),
{
    let mut text = "the daemon at ".to_owned();
    text.append(at);
    text.append(" sent a device list this client cannot read: ");
    text.append(reason);
    text
}

/// A target that needs no bootstrap.
pub open spec fn already_gadget_text(index: nat, at: Seq<char>) -> Seq<char> {
    "Device "@
        + crate::text::decimal(index)
        + " on "@
        + at
        + " is already the U-Boot DFU gadget; nothing to bootstrap."@
}

fn already_gadget(index: u64, at: &str) -> (text: String)
    ensures
        text@ == already_gadget_text(index as nat, at@),
{
    let mut text = "Device ".to_owned();
    push_decimal(&mut text, index);
    text.append(" on ");
    text.append(at);
    text.append(" is already the U-Boot DFU gadget; nothing to bootstrap.");
    text
}

/// A target that cannot be bootstrapped.
pub open spec fn not_a_bootrom_text(index: nat, at: Seq<char>, what: Seq<char>, because: Seq<char>) -> Seq<char> {
    "device "@
        + crate::text::decimal(index)
        + " on "@
        + at
        + " is "@
        + what
        + ", and only a device in the bootrom can be USB-booted"@
        + because
        + ". Power-cycle it into the bootrom and try again"@
}

fn not_a_bootrom(index: u64, at: &str, what: &str, because: &str) -> (text: String)
    ensures
        text@ == not_a_bootrom_text(index as nat, at@, what@, because@),
{
    let mut text = "device ".to_owned();
    push_decimal(&mut text, index);
    text.append(" on ");
    text.append(at);
    text.append(" is ");
    text.append(what);
    text.append(", and only a device in the bootrom can be USB-booted");
    text.append(because);
    text.append(". Power-cycle it into the bootrom and try again");
    text
}

/// Loaders that replace the daemon's.
pub open spec fn streaming_text(source: Seq<char>) -> Seq<char> {
    "Streaming "@
        + source
        + " to the daemon in place of its firmware tree."@
}

fn streaming(source: &str) -> (text: String)
    ensures
        text@ == streaming_text(source@),
{
    let mut text = "Streaming ".to_owned();
    text.append(source);
    text.append(" to the daemon in place of its firmware tree.");
    text
}

/// A bootstrap that was done.
pub open spec fn booted_text(index: nat) -> Seq<char> {
    "The daemon has USB-booted device "@
        + crate::text::decimal(index)
        + "; the DFU gadget is coming up."@
}

fn booted(index: u64) -> (text: String)
    ensures
        text@ == booted_text(index as nat),
{
    let mut text = "The daemon has USB-booted device ".to_owned();
    push_decimal(&mut text, index);
    text.append("; the DFU gadget is coming up.");
    text
}

/// A target half way into its boot.
pub open spec fn between_text(index: nat, at: Seq<char>) -> Seq<char> {
    "Device "@
        + crate::text::decimal(index)
        + " on "@
        + at
        + " is between the bootrom and the DFU gadget; waiting up to 30 s for it to re-enumerate."@
}

fn between(index: u64, at: &str) -> (text: String)
    ensures
        text@ == between_text(index as nat, at@),
{
    let mut text = "Device ".to_owned();
    push_decimal(&mut text, index);
    text.append(" on ");
    text.append(at);
    text.append(" is between the bootrom and the DFU gadget; waiting up to 30 s for it to re-enumerate.");
    text
}

/// A row that another device took.
pub open spec fn row_taken_text(index: nat, at: Seq<char>, bus: nat, address: nat, new_bus: nat, new_address: nat) -> Seq<char> {
    "device "@
        + crate::text::decimal(index)
        + " on "@
        + at
        + " was bus "@
        + crate::text::decimal(bus)
        + " address "@
        + crate::text::decimal(address)
        + " when this run picked it, and the row at that position is now bus "@
        + crate::text::decimal(new_bus)
        + " address "@
        + crate::text::decimal(new_address)
        + ": another device took the position over while ours was re-enumerating, and this client will not bootstrap a device the operator did not pick. Run -l against "@
        + at
        + " and name the row it reports now"@
}

fn row_taken(index: u64, at: &str, bus: u64, address: u64, new_bus: u64, new_address: u64) -> (text: String)
    ensures
        text@ == row_taken_text(index as nat, at@, bus as nat, address as nat, new_bus as nat, new_address as nat),
{
    let mut text = "device ".to_owned();
    push_decimal(&mut text, index);
    text.append(" on ");
    text.append(at);
    text.append(" was bus ");
    push_decimal(&mut text, bus);
    text.append(" address ");
    push_decimal(&mut text, address);
    text.append(" when this run picked it, and the row at that position is now bus ");
    push_decimal(&mut text, new_bus);
    text.append(" address ");
    push_decimal(&mut text, new_address);
    text.append(": another device took the position over while ours was re-enumerating, and this client will not bootstrap a device the operator did not pick. Run -l against ");
    text.append(at);
    text.append(" and name the row it reports now");
    text
}

/// A row that is no longer listed.
pub open spec fn row_gone_text(index: nat, at: Seq<char>, bus: nat, address: nat) -> Seq<char> {
    "device "@
        + crate::text::decimal(index)
        + " on "@
        + at
        + " was bus "@
        + crate::text::decimal(bus)
        + " address "@
        + crate::text::decimal(address)
        + " when this run picked it, and the daemon's newest device list no longer has it: any number sent now would name whatever took its place. Run -l against "@
        + at
        + " to see the bus as it is"@
}

fn row_gone(index: u64, at: &str, bus: u64, address: u64) -> (text: String)
    ensures
        text@ == row_gone_text(index as nat, at@, bus as nat, address as nat),
{
    let mut text = "device ".to_owned();
    push_decimal(&mut text, index);
    text.append(" on ");
    text.append(at);
    text.append(" was bus ");
    push_decimal(&mut text, bus);
    text.append(" address ");
    push_decimal(&mut text, address);
    text.append(" when this run picked it, and the daemon's newest device list no longer has it: any number sent now would name whatever took its place. Run -l against ");
    text.append(at);
    text.append(" to see the bus as it is");
    text
}

/// A SoC that the daemon cannot name.
pub open spec fn unknown_soc_text(at: Seq<char>, index: nat) -> Seq<char> {
    "the daemon at "@
        + at
        + " does not know what SoC device "@
        + crate::text::decimal(index)
        + " is, so this client cannot choose a loader: pass --cpu with the part's loader name, or stream your own with --spl and --uboot"@
}

fn unknown_soc(at: &str, index: u64) -> (text: String)
    ensures
        text@ == unknown_soc_text(at@, index as nat),
{
    let mut text = "the daemon at ".to_owned();
    text.append(at);
    text.append(" does not know what SoC device ");
    push_decimal(&mut text, index);
    text.append(" is, so this client cannot choose a loader: pass --cpu with the part's loader name, or stream your own with --spl and --uboot");
    text
}

/// A SoC that the daemon named.
pub open spec fn detected_text(name: Seq<char>) -> Seq<char> {
    "Auto-detected remote device: "@
        + name
}

fn detected(name: &str) -> (text: String)
    ensures
        text@ == detected_text(name@),
{
    let mut text = "Auto-detected remote device: ".to_owned();
    text.append(name);
    text
}

/// An erase that begins.
pub open spec fn erasing_text(at: Seq<char>) -> Seq<char> {
    "Erasing the whole flash on "@
        + at
        + ": this takes minutes; the daemon reports progress."@
}

fn erasing(at: &str) -> (text: String)
    ensures
        text@ == erasing_text(at@),
{
    let mut text = "Erasing the whole flash on ".to_owned();
    text.append(at);
    text.append(": this takes minutes; the daemon reports progress.");
    text
}

/// A write that begins. `alt` and `verify` are phrases of their own.
pub open spec fn sending_text(count: nat, at: Seq<char>, index: nat, alt: Seq<char>, verify: Seq<char>) -> Seq<char> {
    "Sending "@
        + crate::text::decimal(count)
        + " bytes to "@
        + at
        + " for device "@
        + crate::text::decimal(index)
        + alt
        + verify
        + "."@
}

pub fn sending(count: u64, at: &str, index: u64, alt: &str, verify: &str) -> (text: String)
    ensures
        text@ == sending_text(count as nat, at@, index as nat, alt@, verify@),
{
    let mut text = "Sending ".to_owned();
    push_decimal(&mut text, count);
    text.append(" bytes to ");
    text.append(at);
    text.append(" for device ");
    push_decimal(&mut text, index);
    text.append(alt);
    text.append(verify);
    text.append(".");
    text
}

/// A cap that the wire does not carry.
pub open spec fn capped_text(limit: nat) -> Seq<char> {
    "--size "@
        + crate::text::decimal(limit)
        + " is a client-side cap here: the wire's read has no length field, so the daemon sends the whole alt and the first "@
        + crate::text::decimal(limit)
        + " bytes are kept."@
}

fn capped(limit: u64) -> (text: String)
    ensures
        text@ == capped_text(limit as nat),
{
    let mut text = "--size ".to_owned();
    push_decimal(&mut text, limit);
    text.append(" is a client-side cap here: the wire's read has no length field, so the daemon sends the whole alt and the first ");
    push_decimal(&mut text, limit);
    text.append(" bytes are kept.");
    text
}

/// A read that begins. `alt` is a phrase of its own.
pub open spec fn reading_text(index: nat, alt: Seq<char>, at: Seq<char>, path: Seq<char>) -> Seq<char> {
    "Reading device "@
        + crate::text::decimal(index)
        + alt
        + " from "@
        + at
        + " into "@
        + path
        + "."@
}

pub fn reading(index: u64, alt: &str, at: &str, path: &str) -> (text: String)
    ensures
        text@ == reading_text(index as nat, alt@, at@, path@),
{
    let mut text = "Reading device ".to_owned();
    push_decimal(&mut text, index);
    text.append(alt);
    text.append(" from ");
    text.append(at);
    text.append(" into ");
    text.append(path);
    text.append(".");
    text
}

/// A read that is done.
pub open spec fn saved_text(count: nat, path: Seq<char>) -> Seq<char> {
    "Saved "@
        + crate::text::decimal(count)
        + " bytes to "@
        + path
        + " (CRC-32 checked)."@
}

fn saved(count: u64, path: &str) -> (text: String)
    ensures
        text@ == saved_text(count as nat, path@),
{
    let mut text = "Saved ".to_owned();
    push_decimal(&mut text, count);
    text.append(" bytes to ");
    text.append(path);
    text.append(" (CRC-32 checked).");
    text
}

/// A reboot that was done.
pub open spec fn rebooted_text(index: nat) -> Seq<char> {
    "Reboot triggered on device "@
        + crate::text::decimal(index)
        + " (remote)."@
}

fn rebooted(index: u64) -> (text: String)
    ensures
        text@ == rebooted_text(index as nat),
{
    let mut text = "Reboot triggered on device ".to_owned();
    push_decimal(&mut text, index);
    text.append(" (remote).");
    text
}

/// A bus with nothing on it.
pub open spec fn empty_bus_text(at: Seq<char>, advice: Seq<char>) -> Seq<char> {
    "no Ingenic devices on the daemon's bus at "@
        + at
        + ": "@
        + advice
}

fn empty_bus(at: &str, advice: &str) -> (text: String)
    ensures
        text@ == empty_bus_text(at@, advice@),
{
    let mut text = "no Ingenic devices on the daemon's bus at ".to_owned();
    text.append(at);
    text.append(": ");
    text.append(advice);
    text
}

/// A row past the end of the list.
pub open spec fn not_listed_text(index: nat, at: Seq<char>, count: nat) -> Seq<char> {
    "device "@
        + crate::text::decimal(index)
        + " is not on the daemon's bus: "@
        + at
        + " reports "@
        + crate::text::decimal(count)
        + " device(s). Run the same command with -l instead of an operation to see them"@
}

fn not_listed(index: u64, at: &str, count: u64) -> (text: String)
    ensures
        text@ == not_listed_text(index as nat, at@, count as nat),
{
    let mut text = "device ".to_owned();
    push_decimal(&mut text, index);
    text.append(" is not on the daemon's bus: ");
    text.append(at);
    text.append(" reports ");
    push_decimal(&mut text, count);
    text.append(" device(s). Run the same command with -l instead of an operation to see them");
    text
}

/// Two parts of this crate that contradict each other.
pub open spec fn contradiction_text(what: Seq<char>) -> Seq<char> {
    what
        + ": this is a bug in thingino-dfu, not in the command"@
}

fn contradiction(what: &str) -> (text: String)
    ensures
        text@ == contradiction_text(what@),
{
    let mut text = what.to_owned();
    text.append(": this is a bug in thingino-dfu, not in the command");
    text
}

/// Said when an erase is done.
pub const ERASED: &'static str = "Erase completed and blank-checked (remote).";

/// A stage byte in a sentence.
pub open spec fn stage_phrase(stage: u8) -> Seq<char> {
    if stage == 1 {
        "running firmware"@
    } else if stage == 2 {
        "the U-Boot DFU gadget"@
    } else {
        "in a stage this client does not know ("@ + crate::text::decimal(stage as nat) + ")"@
    }
}

/// A stage byte in a sentence.
pub fn describe(stage: u8) -> (phrase: String)
    ensures
        phrase@ == stage_phrase(stage),
{
    match stage {
        1 => "running firmware".to_owned(),
        2 => "the U-Boot DFU gadget".to_owned(),
        other => {
            let mut phrase = "in a stage this client does not know (".to_owned();
            push_decimal(&mut phrase, other as u64);
            phrase.append(")");
            phrase
        },
    }
}

/// Two parts of this crate contradicting each other, said out loud.
pub fn disagreement(what: &str) -> (error: RemoteError)
    ensures
        error matches RemoteError::Refusal(message) && message@ == contradiction_text(what@),
{
    RemoteError::refusal(contradiction(what))
}

/// Why a bootstrap was there, in the words of its refusal.
pub open spec fn because(trigger: BootstrapTrigger) -> Seq<char> {
    match trigger {
        BootstrapTrigger::Requested => ""@,
        BootstrapTrigger::Auto => ", which is what this transfer needs first"@,
    }
}

/// The alt-setting as the wire spells it: a name or the digits of a number, or nothing.
pub open spec fn alt_spelling(alt: AltSel) -> Seq<u8> {
    match alt {
        AltSel::Name(name) => vstd::utf8::encode_utf8(name@),
        AltSel::Index(index) => vstd::utf8::encode_utf8(crate::text::decimal(index as nat)),
        AltSel::Default => Seq::empty(),
    }
}

/// The alt-setting as the wire spells it.
pub fn alt_bytes(alt: &AltSel) -> (bytes: Vec<u8>)
    ensures
        bytes@ == alt_spelling(*alt),
{
    match alt {
        AltSel::Name(name) => copy_bytes(name.as_str().as_bytes()),
        AltSel::Index(index) => {
            let digits = decimal_of(*index as u64);
            copy_bytes(digits.as_str().as_bytes())
        },
        AltSel::Default => Vec::new(),
    }
}

/// A named alt-setting as a phrase of a narration line, with its name in quotes.
pub open spec fn named_alt_text(quoted: Seq<char>) -> Seq<char> {
    " alt "@ + quoted
}

/// A named alt-setting as a phrase of a narration line, with its name in quotes.
pub fn named_alt(quoted: &str) -> (phrase: String)
    ensures
        phrase@ == named_alt_text(quoted@),
{
    let mut phrase = " alt ".to_owned();
    phrase.append(quoted);
    phrase
}

/// The alt-setting as a phrase of a narration line.
pub open spec fn alt_words(alt: AltSel) -> Seq<char> {
    match alt {
        AltSel::Name(name) => named_alt_text(crate::text::quoted_text(name@)),
        AltSel::Index(index) => " alt "@ + crate::text::decimal(index as nat),
        AltSel::Default => ""@,
    }
}

/// The alt-setting as a phrase of a narration line; nothing where none was named.
pub fn alt_phrase(alt: &AltSel) -> (phrase: String)
    ensures
        phrase@ == alt_words(*alt),
{
    match alt {
        AltSel::Name(name) => {
            let name = quoted(name.as_str());
            named_alt(name.as_str())
        },
        AltSel::Index(index) => {
            let mut phrase = " alt ".to_owned();
            push_decimal(&mut phrase, *index as u64);
            phrase
        },
        AltSel::Default => "".to_owned(),
    }
}

/// A daemon's report as it is printed: made safe, and ended by one newline.
pub open spec fn report_text(text: Seq<char>) -> Seq<char> {
    crate::text::without_newlines_at_end(crate::render::all_shown(text, true)) + "\n"@
}

/// A daemon's report as it is printed.
pub fn report(text: &str) -> (printed: String)
    ensures
        printed@ == report_text(text@),
{
    let shown = sanitise(text);
    let mut printed = trim_newlines(shown.as_str());
    printed.append("\n");
    printed
}

// ---------------------------------------------------------------------------
// The row a run is talking about.
// ---------------------------------------------------------------------------
/// A row of a list, and the identity that list gave it.
#[derive(Debug, Clone, Copy, PartialEq, Eq, Structural)]
pub struct Anchor {
    /// The position it held, which is what goes on the wire.
    pub index: u8,
    /// The bus it was on.
    pub bus: u8,
    /// The address it answered at.
    pub address: u8,
}

impl Anchor {
    /// Is `entry` of a newer list the row that was picked, where it was?
    pub open spec fn is_unmoved(self, entry: DeviceEntry) -> bool {
        entry.bus == self.bus && entry.address == self.address
    }

    /// Can `entry` of a newer list be the device that was picked?
    ///
    /// Same bus and same address is the row unmoved. A gadget on the same bus is taken for it
    /// as well, because a bootstrap is what changes a device's address.
    pub open spec fn is_still(self, entry: DeviceEntry) -> bool {
        entry.bus == self.bus && (entry.address == self.address || entry.stage == 2)
    }

    /// Can `entry` of a newer list be the device that was picked?
    pub fn matches(self, entry: &DeviceEntry) -> (yes: bool)
        ensures
            yes == self.is_still(*entry),
    {
        entry.bus == self.bus && (entry.address == self.address || entry.stage == 2)
    }
}

/// What a run is pointing at.
#[derive(Debug, Clone, Copy, PartialEq, Eq, Structural)]
pub enum Chosen {
    /// No list was read yet, so the number is the operator's own.
    Operator,
    /// A row of the list that the daemon holds.
    Row(Anchor),
    /// A row that a newer list does not hold, so that no number names it.
    Gone(Anchor),
}

/// The first row that is to be kept, or the length of the list.
pub open spec fn first_of(entries: Seq<DeviceEntry>, keep: spec_fn(DeviceEntry) -> bool) -> int
    decreases entries.len(),
{
    if entries.len() == 0 || keep(entries[0]) {
        0
    } else {
        1 + first_of(entries.drop_first(), keep)
    }
}

/// What a run points at once a newer list has replaced the one its row was picked from.
pub open spec fn reanchored(chosen: Chosen, entries: Seq<DeviceEntry>) -> Chosen {
    match chosen {
        Chosen::Operator => Chosen::Operator,
        Chosen::Row(anchor) => found_again(anchor, entries),
        Chosen::Gone(anchor) => found_again(anchor, entries),
    }
}

/// Where a newer list has the device that was picked: the row of its own bus and address, and
/// where there is none, the first row that is taken for it. The length of the list where there
/// is neither.
pub open spec fn place(anchor: Anchor, entries: Seq<DeviceEntry>) -> int {
    let own = first_of(entries, |entry: DeviceEntry| anchor.is_unmoved(entry));
    if own < entries.len() {
        own
    } else {
        first_of(entries, |entry: DeviceEntry| anchor.is_still(entry))
    }
}

/// The row of a newer list that is the device that was picked, where one byte can name it.
pub open spec fn found_again(anchor: Anchor, entries: Seq<DeviceEntry>) -> Chosen {
    let position = place(anchor, entries);
    if position < entries.len() && position <= 255 {
        Chosen::Row(Anchor { index: position as u8, ..anchor })
    } else {
        Chosen::Gone(anchor)
    }
}

/// Where a list has the row of this bus and address.
fn find_unmoved(anchor: Anchor, entries: &Vec<DeviceEntry>) -> (position: usize)
    ensures
        position == first_of(entries@, |entry: DeviceEntry| anchor.is_unmoved(entry)),
        position <= entries.len(),
{
    let ghost keep = |entry: DeviceEntry| anchor.is_unmoved(entry);
    let mut at: usize = 0;
    assert(entries@.skip(0) =~= entries@);
    while at < entries.len()
        invariant
            at <= entries.len(),
            keep == (|entry: DeviceEntry| anchor.is_unmoved(entry)),
            first_of(entries@, keep) == at + first_of(entries@.skip(at as int), keep),
        decreases entries.len() - at,
    {
        if entries[at].bus == anchor.bus && entries[at].address == anchor.address {
            return at;
        }
        assert(entries@.skip(at as int).drop_first() =~= entries@.skip(at + 1));
        at += 1;
    }
    at
}

/// Where a list has the first row that is taken for the device that was picked.
fn find_still(anchor: Anchor, entries: &Vec<DeviceEntry>) -> (position: usize)
    ensures
        position == first_of(entries@, |entry: DeviceEntry| anchor.is_still(entry)),
        position <= entries.len(),
{
    let ghost keep = |entry: DeviceEntry| anchor.is_still(entry);
    let mut at: usize = 0;
    assert(entries@.skip(0) =~= entries@);
    while at < entries.len()
        invariant
            at <= entries.len(),
            keep == (|entry: DeviceEntry| anchor.is_still(entry)),
            first_of(entries@, keep) == at + first_of(entries@.skip(at as int), keep),
        decreases entries.len() - at,
    {
        if anchor.matches(&entries[at]) {
            return at;
        }
        assert(entries@.skip(at as int).drop_first() =~= entries@.skip(at + 1));
        at += 1;
    }
    at
}

/// Find the row that was picked in a newer list.
fn find_again(anchor: Anchor, entries: &Vec<DeviceEntry>) -> (chosen: Chosen)
    ensures
        chosen == found_again(anchor, entries@),
{
    let own = find_unmoved(anchor, entries);
    let position: usize = if own < entries.len() {
        own
    } else {
        find_still(anchor, entries)
    };
    if position < entries.len() && position <= 255 {
        Chosen::Row(Anchor { index: position as u8, bus: anchor.bus, address: anchor.address })
    } else {
        Chosen::Gone(anchor)
    }
}

proof fn lemma_first_of(entries: Seq<DeviceEntry>, keep: spec_fn(DeviceEntry) -> bool)
    ensures
        0 <= first_of(entries, keep) <= entries.len(),
        first_of(entries, keep) < entries.len() ==> keep(entries[first_of(entries, keep)]),
        forall|i: int| 0 <= i < first_of(entries, keep) ==> !keep(#[trigger] entries[i]),
    decreases entries.len(),
{
    if entries.len() > 0 && !keep(entries[0]) {
        lemma_first_of(entries.drop_first(), keep);
        assert forall|i: int| 0 <= i < first_of(entries, keep) implies !keep(#[trigger] entries[i]) by {
            if i > 0 {
                assert(entries[i] == entries.drop_first()[i - 1]);
            }
        }
    }
}

proof fn lemma_place(anchor: Anchor, entries: Seq<DeviceEntry>)
    ensures
        0 <= place(anchor, entries) <= entries.len(),
        place(anchor, entries) < entries.len() ==> anchor.is_still(entries[place(anchor, entries)]),
        forall|i: int| 0 <= i < entries.len() && #[trigger] anchor.is_unmoved(entries[i]) ==> {
            &&& place(anchor, entries) <= i
            &&& anchor.is_unmoved(entries[place(anchor, entries)])
        },
{
    let unmoved = |entry: DeviceEntry| anchor.is_unmoved(entry);
    lemma_first_of(entries, unmoved);
    lemma_first_of(entries, |entry: DeviceEntry| anchor.is_still(entry));
    assert forall|i: int| 0 <= i < entries.len() && #[trigger] anchor.is_unmoved(entries[i]) implies {
        &&& place(anchor, entries) <= i
        &&& anchor.is_unmoved(entries[place(anchor, entries)])
    } by {
        assert(unmoved(entries[i]));
    }
}

/// As long as the list holds the bus and address that were picked, the number that goes on the
/// wire names such a row, or none is sent. Where it holds them no more, the number names a gadget
/// on that bus, as a bootstrap leaves one behind, or none is sent.
pub proof fn law_a_number_names_the_picked_row_or_its_gadget(chosen: Chosen, entries: Seq<DeviceEntry>)
    requires
        !(chosen is Operator),
    ensures
        !(reanchored(chosen, entries) is Operator),
        reanchored(chosen, entries) matches Chosen::Row(anchor) ==> {
            &&& anchor.index < entries.len()
            &&& anchor.is_still(entries[anchor.index as int])
            &&& (exists|i: int| 0 <= i < entries.len() && #[trigger] anchor.is_unmoved(entries[i]))
                ==> anchor.is_unmoved(entries[anchor.index as int])
        },
{
    match chosen {
        Chosen::Operator => {},
        Chosen::Row(anchor) | Chosen::Gone(anchor) => {
            lemma_place(anchor, entries);
            if let Chosen::Row(found) = reanchored(chosen, entries) {
                assert forall|i: int| 0 <= i < entries.len() && #[trigger] found.is_unmoved(
                    entries[i],
                ) implies anchor.is_unmoved(entries[i]) by {}
            }
        },
    }
}

/// A row that was lost is found again when a list holds it again: what the lists in between
/// held makes no difference to the number.
pub proof fn law_a_lost_row_can_come_back(chosen: Chosen, between: Seq<DeviceEntry>, newest: Seq<DeviceEntry>)
    ensures
        reanchored(reanchored(chosen, between), newest) is Row <==> reanchored(chosen, newest) is Row,
        reanchored(chosen, newest) is Row ==> reanchored(reanchored(chosen, between), newest) == reanchored(
            chosen,
            newest,
        ),
{
    let anchor = match chosen {
        Chosen::Operator => Anchor { index: 0, bus: 0, address: 0 },
        Chosen::Row(anchor) => anchor,
        Chosen::Gone(anchor) => anchor,
    };
    lemma_place_by_identity(newest, anchor, Anchor { index: place(anchor, between) as u8, ..anchor });
}

proof fn lemma_place_by_identity(entries: Seq<DeviceEntry>, left: Anchor, right: Anchor)
    requires
        left.bus == right.bus,
        left.address == right.address,
    ensures
        place(left, entries) == place(right, entries),
{
    assert((|entry: DeviceEntry| left.is_unmoved(entry)) =~= (|entry: DeviceEntry| right.is_unmoved(entry)));
    assert((|entry: DeviceEntry| left.is_still(entry)) =~= (|entry: DeviceEntry| right.is_still(entry)));
}

// ---------------------------------------------------------------------------
// The run.
// ---------------------------------------------------------------------------
/// A bootstrap that is under way.
#[derive(Debug, Clone, Copy, PartialEq, Eq, Structural)]
pub struct Boot {
    /// The number of its target.
    pub index: u8,
    /// Why it is in the plan.
    pub trigger: BootstrapTrigger,
}

/// A target that is waited for.
#[derive(Debug, Clone, Copy, PartialEq, Eq, Structural)]
pub struct Settle {
    /// The bootstrap it is the target of.
    pub boot: Boot,
    /// The device that was picked.
    pub anchor: Anchor,
    /// How often to ask again.
    pub left: u32,
}

/// Where a run stands.
#[derive(Debug, Clone, Copy, PartialEq, Eq, Structural)]
pub enum Point {
    /// Nothing was done.
    Start,
    /// `--wait`: the list was asked for.
    WaitAsked {
        /// Whether the wait was announced.
        announced: bool,
    },
    /// `--wait`: there is nothing yet.
    WaitSleeping,
    /// The next action begins.
    Ready,
    /// `-l`: the list was asked for.
    ListAsked,
    /// `-l`: the table is being printed.
    ListPrinting,
    /// `--diag`: the report was asked for.
    DiagAsked,
    /// `--diag`: the report is being printed.
    DiagPrinting,
    /// A bootstrap: the list was asked for.
    EntryAsked(Boot),
    /// A bootstrap: its target is half way into its boot.
    Settling(Settle),
    /// A bootstrap: the list was asked for again.
    SettleAsked(Settle),
    /// A bootstrap was asked for.
    BootstrapAsked {
        /// The number of its target.
        index: u8,
    },
    /// An erase was asked for.
    EraseAsked,
    /// A write was asked for.
    WriteAsked,
    /// A read was asked for.
    ReadSent,
    /// A read is being streamed.
    ReadStreaming,
    /// A reboot was asked for.
    RebootAsked {
        /// The number of its target.
        index: u8,
    },
    /// The run is over.
    Over,
}

/// What a run does next.
#[derive(Debug, PartialEq, Eq)]
pub enum Act {
    /// Go on.
    Proceed,
    /// Send a command and read its answer.
    Ask {
        /// The command.
        request: Request,
        /// What it is called.
        doing: &'static str,
    },
    /// Send a command.
    Send {
        /// The command.
        request: Request,
        /// What it is called.
        doing: &'static str,
    },
    /// Stream the answer of the command that was sent into a file.
    Stream {
        /// The file.
        path: String,
        /// How many bytes it is to have at most.
        limit: Option<u64>,
    },
    /// Sleep for so many milliseconds.
    Sleep(u64),
    /// Print this text.
    Print(String),
    /// The run is over.
    Finish(Result<(), Failure>),
}

/// What a run says, and what it does then.
#[derive(Debug, PartialEq, Eq)]
pub struct Turn {
    /// The lines it says.
    pub say: Vec<String>,
    /// What it does.
    pub act: Act,
}

/// What came of what a run did.
#[derive(Debug, PartialEq, Eq)]
pub enum Event {
    /// It goes on.
    Went,
    /// The list arrived, or cannot be read for a reason.
    Listed(Result<Vec<DeviceEntry>, String>),
    /// An answer arrived.
    Answered(Vec<u8>),
    /// The command was sent.
    Sent,
    /// So many bytes are in the file.
    Saved(u64),
    /// The sleep is over.
    Slept,
    /// The text was printed, or could not be.
    Printed(Result<(), FileError>),
    /// The conversation failed, or the daemon refused.
    Failed(RemoteError),
}

/// One remote run.
#[derive(Debug, Clone, PartialEq, Eq)]
pub struct Session {
    /// Where the daemon is.
    pub at: Address,
    /// What to do.
    pub plan: Plan,
    /// The files, read before anything was connected.
    pub loaded: Loaded,
    /// The list that the daemon last sent, until it is known to be stale.
    pub devices: Option<Vec<DeviceEntry>>,
    /// The row this run is talking about.
    pub chosen: Chosen,
    /// How many actions are done.
    pub next: usize,
    /// Where it stands.
    pub point: Point,
}

/// Does a turn say these lines?
pub open spec fn says(turn: Turn, lines: Seq<Seq<char>>) -> bool {
    crate::text::texts(turn.say@) == lines
}

/// Does a turn end the run with a refusal of this class?
pub open spec fn refuses(turn: Turn, class: OpClass, text: Seq<char>) -> bool {
    &&& turn.act matches Act::Finish(Err(failure))
    &&& failure.class == class
    &&& failure.error matches Error::Protocol(message)
    &&& message@ == text
    &&& failure.stated matches Some(stated)
    &&& stated@ == text
}

/// Does a turn end the run with this failure, of an operation of this class?
pub open spec fn fails(turn: Turn, class: OpClass, error: RemoteError) -> bool {
    turn.act matches Act::Finish(Err(failure)) && error.fails_as(class, failure)
}

/// Does a turn ask this, under this name?
pub open spec fn asks(turn: Turn, request: Request, doing: Seq<char>) -> bool {
    turn.act matches Act::Ask { request: sent, doing: name } && sent == request && name@ == doing
}

/// The row at a position of a list.
pub open spec fn row(devices: Seq<DeviceEntry>, index: u8) -> Option<DeviceEntry> {
    if index < devices.len() {
        Some(devices[index as int])
    } else {
        None
    }
}

impl Session {
    /// The class of the action that is running.
    pub open spec fn class(self) -> OpClass {
        crate::run::class(self.plan.actions[self.next as int])
    }

    /// Is there an action that is running, wherever one has to be?
    pub open spec fn wf(self) -> bool {
        &&& self.next <= self.plan.actions.len()
        &&& match self.point {
            Point::Start => self.next == 0,
            Point::WaitAsked { .. } => true,
            Point::WaitSleeping => true,
            Point::Ready => true,
            Point::Over => true,
            Point::Settling(settle) => self.next < self.plan.actions.len() && 0 < settle.left <= SETTLE_POLLS,
            Point::SettleAsked(settle) => self.next < self.plan.actions.len() && 0 < settle.left <= SETTLE_POLLS,
            Point::ReadStreaming => self.next < self.plan.actions.len() && self.plan.images.read is Some,
            Point::ReadSent => self.next < self.plan.actions.len() && self.plan.images.read is Some,
            _ => self.next < self.plan.actions.len(),
        }
    }

    /// Is this what can come of what the run did?
    pub open spec fn awaits(self, event: Event) -> bool {
        match self.point {
            Point::Start => event is Went,
            Point::Ready => event is Went,
            Point::WaitSleeping => event is Slept,
            Point::Settling(_) => event is Slept,
            Point::WaitAsked { .. } => event is Listed || event is Failed,
            Point::ListAsked => event is Listed || event is Failed,
            Point::EntryAsked(_) => event is Listed || event is Failed,
            Point::SettleAsked(_) => event is Listed || event is Failed,
            Point::DiagAsked => event is Answered || event is Failed,
            Point::BootstrapAsked { .. } => event is Answered || event is Failed,
            Point::EraseAsked => event is Answered || event is Failed,
            Point::WriteAsked => event is Answered || event is Failed,
            Point::RebootAsked { .. } => event is Answered || event is Failed,
            Point::ReadSent => event is Sent || event is Failed,
            Point::ReadStreaming => event is Saved || event is Failed,
            Point::ListPrinting => event is Printed,
            Point::DiagPrinting => event is Printed,
            Point::Over => false,
        }
    }

    /// This run with another point.
    pub open spec fn now_at(self, point: Point) -> Session {
        Session { point, ..self }
    }

    /// This run with one more action done.
    pub open spec fn one_done(self) -> Session {
        Session { point: Point::Ready, next: (self.next + 1) as usize, ..self }
    }

    /// This run with the newest list, and its row found again in it.
    pub open spec fn with_list(self, devices: Vec<DeviceEntry>) -> Session {
        Session { devices: Some(devices), chosen: reanchored(self.chosen, devices@), ..self }
    }

    /// A run of `plan` against the daemon that `remote` names, with the files it needs.
    pub fn run(remote: &Remote, plan: Plan, loaded: Loaded) -> (session: Session)
        ensures
            session.wf(),
            is_fresh(session, plan, loaded),
            session == (Session {
                at: Address { host: remote.host, port: remote.port },
                plan,
                loaded,
                devices: None,
                chosen: Chosen::Operator,
                next: 0,
                point: Point::Start,
            }),
    {
        Session {
            at: Address::new(remote.host.clone(), remote.port),
            plan,
            loaded,
            devices: None,
            chosen: Chosen::Operator,
            next: 0,
            point: Point::Start,
        }
    }

    // -----------------------------------------------------------------
    // The pieces.
    // -----------------------------------------------------------------
    /// The number to put on the wire, or why there is none.
    pub open spec fn number(self) -> Option<u8> {
        match self.chosen {
            Chosen::Operator => Some(self.plan.target.index),
            Chosen::Row(anchor) => Some(anchor.index),
            Chosen::Gone(_) => None,
        }
    }

    /// What is said where no number names the target any more.
    pub open spec fn gone_text(self) -> Seq<char> {
        match self.chosen {
            Chosen::Gone(anchor) => row_gone_text(
                self.plan.target.index as nat,
                self.at.text(),
                anchor.bus as nat,
                anchor.address as nat,
            ),
            _ => Seq::empty(),
        }
    }

    /// The number to put on the wire: the operator's own until a list was read, and then the
    /// position of the row that was picked.
    ///
    /// # Errors
    /// A refusal once a newer list no longer holds that row: the old number would name
    /// whatever took its place.
    pub fn wire_index(&self) -> (index: Result<u8, RemoteError>)
        ensures
            match self.number() {
                Some(number) => index == Ok::<u8, RemoteError>(number),
                None => index matches Err(RemoteError::Refusal(message)) && message@ == self.gone_text(),
            },
    {
        match self.chosen {
            Chosen::Operator => Ok(self.plan.target.index),
            Chosen::Row(anchor) => Ok(anchor.index),
            Chosen::Gone(anchor) => {
                let place = self.at.display();
                Err(
                    RemoteError::refusal(
                        row_gone(
                            self.plan.target.index as u64,
                            place.as_str(),
                            anchor.bus as u64,
                            anchor.address as u64,
                        ),
                    ),
                )
            },
        }
    }

    /// What is said of a row that a list does not have.
    pub open spec fn missing_text(self, devices: Seq<DeviceEntry>, index: u8) -> Seq<char> {
        if devices.len() == 0 {
            empty_bus_text(self.at.text(), EMPTY_BUS_ADVICE@)
        } else {
            not_listed_text(index as nat, self.at.text(), devices.len())
        }
    }

    /// The row at a position of a list, or how many rows there are.
    ///
    /// # Errors
    /// A refusal, where the list is too short.
    pub fn entry(&self, devices: &Vec<DeviceEntry>, index: u8) -> (entry: Result<DeviceEntry, RemoteError>)
        ensures
            match row(devices@, index) {
                Some(found) => entry == Ok::<DeviceEntry, RemoteError>(found),
                None => entry matches Err(RemoteError::Refusal(message)) && message@ == self.missing_text(
                    devices@,
                    index,
                ),
            },
    {
        if (index as usize) < devices.len() {
            return Ok(devices[index as usize].copy());
        }
        let place = self.at.display();
        if devices.len() == 0 {
            return Err(RemoteError::refusal(empty_bus(place.as_str(), EMPTY_BUS_ADVICE)));
        }
        Err(RemoteError::refusal(not_listed(index as u64, place.as_str(), devices.len() as u64)))
    }

    /// The row at a position of the newest list.
    fn lookup(&self, index: u8) -> (entry: Result<DeviceEntry, RemoteError>)
        requires
            self.devices is Some,
        ensures
            match row(self.devices->0@, index) {
                Some(found) => entry == Ok::<DeviceEntry, RemoteError>(found),
                None => entry matches Err(RemoteError::Refusal(message)) && message@ == self.missing_text(
                    self.devices->0@,
                    index,
                ),
            },
    {
        match &self.devices {
            Some(devices) => self.entry(devices, index),
            None => self.entry(&Vec::new(), index),
        }
    }

    /// Is this row the one state that waiting can resolve?
    pub open spec fn half_way(self, entry: DeviceEntry) -> bool {
        &&& entry.stage == 0
        &&& entry.variant.ordinal == UNKNOWN_VARIANT
        &&& self.plan.target.cpu is None
        &&& self.loaded.loaders is None
    }

    /// Is this row the one state that waiting can resolve: a bootrom that does not say what it
    /// is, where nothing else says which loader to use?
    pub fn mid_boot(&self, entry: &DeviceEntry) -> (yes: bool)
        ensures
            yes == self.half_way(*entry),
    {
        entry.stage == 0 && entry.variant.ordinal == UNKNOWN_VARIANT && self.plan.target.cpu.is_none()
            && self.loaded.loaders.is_none()
    }

    /// Take a newer list, and find the row that was picked in it.
    fn discovered(&mut self, devices: Vec<DeviceEntry>)
        ensures
            *final(self) == old(self).with_list(devices),
    {
        self.chosen = match self.chosen {
            Chosen::Operator => Chosen::Operator,
            Chosen::Row(anchor) => find_again(anchor, &devices),
            Chosen::Gone(anchor) => find_again(anchor, &devices),
        };
        self.devices = Some(devices);
    }

    fn finish(&mut self, error: RemoteError) -> (turn: Turn)
        requires
            old(self).next < old(self).plan.actions.len(),
        ensures
            *final(self) == old(self).now_at(Point::Over),
            says(turn, Seq::empty()),
            fails(turn, old(self).class(), error),
    {
        let class = class_of(&self.plan.actions[self.next]);
        self.point = Point::Over;
        let turn = Turn { say: Vec::new(), act: Act::Finish(Err(error.failure(class))) };
        assert(crate::text::texts(turn.say@) =~= Seq::empty());
        turn
    }

    fn ask(&mut self, point: Point, request: Request, doing: &'static str) -> (turn: Turn)
        ensures
            *final(self) == old(self).now_at(point),
            says(turn, Seq::empty()),
            turn.act == (Act::Ask { request, doing }),
    {
        self.point = point;
        let turn = Turn { say: Vec::new(), act: Act::Ask { request, doing } };
        assert(crate::text::texts(turn.say@) =~= Seq::empty());
        turn
    }

    fn done(&mut self) -> (turn: Turn)
        requires
            old(self).next < old(self).plan.actions.len(),
        ensures
            *final(self) == old(self).one_done(),
            says(turn, Seq::empty()),
            turn.act is Proceed,
    {
        self.next += 1;
        self.point = Point::Ready;
        let turn = Turn { say: Vec::new(), act: Act::Proceed };
        assert(crate::text::texts(turn.say@) =~= Seq::empty());
        turn
    }

    // -----------------------------------------------------------------
    // `--wait`.
    // -----------------------------------------------------------------
    /// What a run says first.
    pub open spec fn opening(self) -> Seq<Seq<char>> {
        match self.plan.target.alt {
            AltSel::Index(index) => seq![
                talking_text(self.at.text()),
                alt_note_text(crate::text::decimal(index as nat)),
            ],
            _ => seq![talking_text(self.at.text())],
        }
    }

    /// How a run begins.
    pub open spec fn has_begun(self, after: Session, turn: Turn) -> bool {
        &&& says(turn, self.opening())
        &&& if self.plan.wait {
            &&& after == Session { devices: None, point: Point::WaitAsked { announced: false }, ..self }
            &&& asks(turn, Request::Discover, LIST@)
        } else {
            after == self.now_at(Point::Ready) && turn.act is Proceed
        }
    }

    /// Say which machine does this and what a number will mean there, and wait for a device
    /// where that was asked for.
    fn begin(&mut self) -> (turn: Turn)
        ensures
            old(self).has_begun(*final(self), turn),
    {
        let place = self.at.display();
        let mut say: Vec<String> = Vec::new();
        say.push(talking(place.as_str()));
        if let AltSel::Index(index) = &self.plan.target.alt {
            let digits = decimal_of(*index as u64);
            say.push(alt_note(digits.as_str()));
        }
        assert(crate::text::texts(say@) =~= self.opening());
        if self.plan.wait {
            self.devices = None;
            self.point = Point::WaitAsked { announced: false };
            return Turn { say, act: Act::Ask { request: Request::Discover, doing: LIST } };
        }
        self.point = Point::Ready;
        Turn { say, act: Act::Proceed }
    }

    /// How a wait goes on.
    pub open spec fn has_waited(
        self,
        announced: bool,
        listed: Result<Vec<DeviceEntry>, String>,
        after: Session,
        turn: Turn,
    ) -> bool {
        match listed {
            Err(reason) => {
                &&& after == self.now_at(Point::Over)
                &&& says(turn, Seq::empty())
                &&& refuses(turn, OpClass::Remote, unreadable_list_text(self.at.text(), reason@))
            },
            Ok(devices) => if devices@.len() > 0 {
                &&& after == self.with_list(devices).now_at(Point::Ready)
                &&& says(turn, if announced {
                    seq![ARRIVED@]
                } else {
                    Seq::empty()
                })
                &&& turn.act is Proceed
            } else {
                &&& after == self.with_list(devices).now_at(Point::WaitSleeping)
                &&& says(turn, if announced {
                    Seq::empty()
                } else {
                    seq![WAITING@]
                })
                &&& turn.act == Act::Sleep(POLL_INTERVAL)
            },
        }
    }

    /// Wait until the daemon can see something: look, and look again, for ever.
    fn wait_for_a_device(&mut self, announced: bool, listed: Result<Vec<DeviceEntry>, String>) -> (turn: Turn)
        ensures
            old(self).has_waited(announced, listed, *final(self), turn),
    {
        match listed {
            Err(reason) => {
                let place = self.at.display();
                let error = RemoteError::protocol(unreadable_list(place.as_str(), reason.as_str()));
                self.point = Point::Over;
                let turn = Turn { say: Vec::new(), act: Act::Finish(Err(error.failure(OpClass::Device))) };
                assert(crate::text::texts(turn.say@) =~= Seq::empty());
                turn
            },
            Ok(devices) => {
                let mut say: Vec<String> = Vec::new();
                let found = devices.len() > 0;
                self.discovered(devices);
                if found {
                    if announced {
                        say.push(ARRIVED.to_owned());
                    }
                    assert(crate::text::texts(say@) =~= if announced {
                        seq![ARRIVED@]
                    } else {
                        Seq::empty()
                    });
                    self.point = Point::Ready;
                    Turn { say, act: Act::Proceed }
                } else {
                    if !announced {
                        say.push(WAITING.to_owned());
                    }
                    assert(crate::text::texts(say@) =~= if announced {
                        Seq::empty()
                    } else {
                        seq![WAITING@]
                    });
                    self.point = Point::WaitSleeping;
                    Turn { say, act: Act::Sleep(POLL_INTERVAL) }
                }
            },
        }
    }

    // -----------------------------------------------------------------
    // A bootstrap.
    // -----------------------------------------------------------------
    /// What a target that has settled leads to.
    pub open spec fn has_settled(self, boot: Boot, entry: DeviceEntry, after: Session, turn: Turn) -> bool {
        let picked = Session {
            chosen: Chosen::Row(Anchor { index: boot.index, bus: entry.bus, address: entry.address }),
            ..self
        };
        if entry.stage == 2 {
            &&& after == picked.one_done()
            &&& says(turn, seq![already_gadget_text(boot.index as nat, self.at.text())])
            &&& turn.act is Proceed
        } else if entry.stage != 0 {
            &&& after == picked.now_at(Point::Over)
            &&& says(turn, Seq::empty())
            &&& refuses(
                turn,
                self.class(),
                not_a_bootrom_text(
                    boot.index as nat,
                    self.at.text(),
                    stage_phrase(entry.stage),
                    because(boot.trigger),
                ),
            )
        } else {
            match self.loaded.loaders {
                Some(blobs) => {
                    &&& after == picked.now_at(Point::BootstrapAsked { index: boot.index })
                    &&& says(turn, seq![streaming_text(blobs.source@)])
                    &&& turn.act matches Act::Ask { request: Request::Bootstrap { index, variant, blobs: sent }, doing }
                    &&& index == boot.index
                    &&& variant@.len() == 0
                    &&& sent matches Some(pair)
                    &&& pair.spl@ == blobs.stage1@
                    &&& pair.uboot@ == blobs.uboot@
                    &&& doing@ == BOOTSTRAP@
                },
                None => match self.plan.target.cpu {
                    Some(forced) => {
                        &&& after == picked.now_at(Point::BootstrapAsked { index: boot.index })
                        &&& says(turn, Seq::empty())
                        &&& boots(turn, boot.index, forced.loader_dir@)
                    },
                    None => match entry.variant.name {
                        None => {
                            &&& after == picked.now_at(Point::Over)
                            &&& says(turn, Seq::empty())
                            &&& refuses(turn, self.class(), unknown_soc_text(self.at.text(), boot.index as nat))
                        },
                        Some(name) => {
                            &&& after == picked.now_at(Point::BootstrapAsked { index: boot.index })
                            &&& says(turn, seq![detected_text(name@)])
                            &&& boots(turn, boot.index, name@)
                        },
                    },
                },
            }
        }
    }

    /// Do what a target that has settled leads to.
    ///
    /// A gadget needs no bootstrap, a bootrom is bootstrapped, and anything else is refused. The
    /// loaders are the pair that was read, or the variant that was named, or the one that the
    /// daemon reports.
    fn bootstrap(&mut self, boot: Boot, entry: DeviceEntry) -> (turn: Turn)
        requires
            old(self).next < old(self).plan.actions.len(),
        ensures
            old(self).has_settled(boot, entry, *final(self), turn),
    {
        let place = self.at.display();
        self.chosen = Chosen::Row(Anchor { index: boot.index, bus: entry.bus, address: entry.address });
        let mut say: Vec<String> = Vec::new();
        if entry.stage == 2 {
            say.push(already_gadget(boot.index as u64, place.as_str()));
            assert(crate::text::texts(say@) =~= seq![already_gadget_text(boot.index as nat, self.at.text())]);
            let mut turn = self.done();
            turn.say = say;
            return turn;
        }
        if entry.stage != 0 {
            let what = describe(entry.stage);
            let because = match boot.trigger {
                BootstrapTrigger::Requested => "",
                BootstrapTrigger::Auto => ", which is what this transfer needs first",
            };
            return self.finish(
                RemoteError::refusal(not_a_bootrom(boot.index as u64, place.as_str(), what.as_str(), because)),
            );
        }
        let point = Point::BootstrapAsked { index: boot.index };
        match &self.loaded.loaders {
            Some(blobs) => {
                say.push(streaming(blobs.source.as_str()));
                assert(crate::text::texts(say@) =~= seq![streaming_text(blobs.source@)]);
                let pair = BootPair { spl: copy_bytes(&blobs.stage1), uboot: copy_bytes(&blobs.uboot) };
                let request = Request::Bootstrap { index: boot.index, variant: Vec::new(), blobs: Some(pair) };
                self.point = point;
                return Turn { say, act: Act::Ask { request, doing: BOOTSTRAP } };
            },
            None => {},
        }
        let variant = match self.variant_for(boot.index, &entry, &mut say) {
            Ok(variant) => variant,
            Err(error) => return self.finish(error),
        };
        self.point = point;
        Turn {
            say,
            act: Act::Ask {
                request: Request::Bootstrap { index: boot.index, variant, blobs: None },
                doing: BOOTSTRAP,
            },
        }
    }

    /// Which loaders the daemon should use, by their name, and what is said about it.
    ///
    /// # Errors
    /// A refusal where nothing names them: the daemon would only fail to find out again.
    fn variant_for(
        &self,
        index: u8,
        entry: &DeviceEntry,
        say: &mut Vec<String>,
    ) -> (variant: Result<Vec<u8>, RemoteError>)
        requires
            old(say)@.len() == 0,
        ensures
            match self.plan.target.cpu {
                Some(forced) => variant matches Ok(name) && name@ == vstd::utf8::encode_utf8(forced.loader_dir@)
                    && crate::text::texts(final(say)@) == Seq::<Seq<char>>::empty(),
                None => match entry.variant.name {
                    Some(known) => variant matches Ok(name) && name@ == vstd::utf8::encode_utf8(known@)
                        && crate::text::texts(final(say)@) == seq![detected_text(known@)],
                    None => variant matches Err(RemoteError::Refusal(message)) && message@ == unknown_soc_text(
                        self.at.text(),
                        index as nat,
                    ),
                },
            },
    {
        if let Some(forced) = &self.plan.target.cpu {
            assert(crate::text::texts(say@) =~= Seq::<Seq<char>>::empty());
            return Ok(copy_bytes(forced.loader_dir.as_str().as_bytes()));
        }
        match &entry.variant.name {
            None => {
                let place = self.at.display();
                Err(RemoteError::refusal(unknown_soc(place.as_str(), index as u64)))
            },
            Some(name) => {
                say.push(detected(name.as_str()));
                assert(crate::text::texts(say@) =~= seq![detected_text(name@)]);
                Ok(copy_bytes(name.as_str().as_bytes()))
            },
        }
    }

    /// What the first look at a target leads to.
    pub open spec fn has_looked(self, boot: Boot, devices: Seq<DeviceEntry>, after: Session, turn: Turn) -> bool {
        match row(devices, boot.index) {
            None => {
                &&& after == self.now_at(Point::Over)
                &&& says(turn, Seq::empty())
                &&& refuses(turn, self.class(), self.missing_text(devices, boot.index))
            },
            Some(entry) => if self.half_way(entry) {
                &&& after == self.now_at(
                    Point::Settling(
                        Settle {
                            boot,
                            anchor: Anchor { index: boot.index, bus: entry.bus, address: entry.address },
                            left: SETTLE_POLLS,
                        },
                    ),
                )
                &&& says(turn, seq![between_text(boot.index as nat, self.at.text())])
                &&& turn.act == Act::Sleep(POLL_INTERVAL)
            } else {
                self.has_settled(boot, entry, after, turn)
            },
        }
    }

    /// Look at the target for the first time, and wait where it is half way into its boot.
    fn settle(&mut self, boot: Boot) -> (turn: Turn)
        requires
            old(self).next < old(self).plan.actions.len(),
            old(self).devices is Some,
        ensures
            old(self).has_looked(boot, old(self).devices->0@, *final(self), turn),
    {
        let entry = match self.lookup(boot.index) {
            Ok(entry) => entry,
            Err(error) => return self.finish(error),
        };
        if !self.mid_boot(&entry) {
            return self.bootstrap(boot, entry);
        }
        let place = self.at.display();
        let mut say: Vec<String> = Vec::new();
        say.push(between(boot.index as u64, place.as_str()));
        assert(crate::text::texts(say@) =~= seq![between_text(boot.index as nat, self.at.text())]);
        self.point = Point::Settling(
            Settle {
                boot,
                anchor: Anchor { index: boot.index, bus: entry.bus, address: entry.address },
                left: SETTLE_POLLS,
            },
        );
        Turn { say, act: Act::Sleep(POLL_INTERVAL) }
    }

    /// Has the target settled, by this list?
    pub open spec fn is_settled(self, settle: Settle, devices: Seq<DeviceEntry>) -> bool {
        row(devices, settle.boot.index) matches Some(entry) && settle.anchor.is_still(entry) && !self.half_way(entry)
    }

    /// What a later look at a target leads to.
    pub open spec fn has_polled(self, settle: Settle, devices: Seq<DeviceEntry>, after: Session, turn: Turn) -> bool {
        let index = settle.boot.index;
        if self.is_settled(settle, devices) {
            self.has_settled(settle.boot, row(devices, index)->0, after, turn)
        } else if settle.left > 1 {
            &&& after == self.now_at(Point::Settling(Settle { left: (settle.left - 1) as u32, ..settle }))
            &&& says(turn, Seq::empty())
            &&& turn.act == Act::Sleep(POLL_INTERVAL)
        } else {
            match row(devices, index) {
                None => {
                    &&& after == self.now_at(Point::Over)
                    &&& says(turn, Seq::empty())
                    &&& refuses(turn, self.class(), self.missing_text(devices, index))
                },
                Some(entry) => if settle.anchor.is_still(entry) {
                    self.has_settled(settle.boot, entry, after, turn)
                } else {
                    &&& after == self.now_at(Point::Over)
                    &&& says(turn, Seq::empty())
                    &&& refuses(
                        turn,
                        self.class(),
                        row_taken_text(
                            index as nat,
                            self.at.text(),
                            settle.anchor.bus as nat,
                            settle.anchor.address as nat,
                            entry.bus as nat,
                            entry.address as nat,
                        ),
                    )
                },
            }
        }
    }

    /// Look at the target again.
    ///
    /// A row that is missing, another device's, or still half way is no answer while there is
    /// time left; once there is none, the last answer is the true one.
    fn poll(&mut self, settle: Settle) -> (turn: Turn)
        requires
            old(self).next < old(self).plan.actions.len(),
            old(self).devices is Some,
            settle.left > 0,
        ensures
            old(self).has_polled(settle, old(self).devices->0@, *final(self), turn),
    {
        let index = settle.boot.index;
        let looked = self.lookup(index);
        if let Ok(entry) = &looked {
            if settle.anchor.matches(entry) && !self.mid_boot(entry) {
                return self.bootstrap(settle.boot, entry.copy());
            }
        }
        if settle.left > 1 {
            self.point = Point::Settling(Settle { boot: settle.boot, anchor: settle.anchor, left: settle.left - 1 });
            let turn = Turn { say: Vec::new(), act: Act::Sleep(POLL_INTERVAL) };
            assert(crate::text::texts(turn.say@) =~= Seq::empty());
            return turn;
        }
        let entry = match looked {
            Ok(entry) => entry,
            Err(error) => return self.finish(error),
        };
        if settle.anchor.matches(&entry) {
            return self.bootstrap(settle.boot, entry);
        }
        let place = self.at.display();
        self.finish(
            RemoteError::refusal(
                row_taken(
                    index as u64,
                    place.as_str(),
                    settle.anchor.bus as u64,
                    settle.anchor.address as u64,
                    entry.bus as u64,
                    entry.address as u64,
                ),
            ),
        )
    }

    // -----------------------------------------------------------------
    // The actions.
    // -----------------------------------------------------------------
    /// What a list that is there leads to.
    pub open spec fn has_listed(self, devices: Seq<DeviceEntry>, after: Session, turn: Turn) -> bool {
        &&& after == self.now_at(Point::ListPrinting)
        &&& says(turn, Seq::empty())
        &&& turn.act matches Act::Print(text)
        &&& text@ == crate::remote::table::listing_text(self.at.text(), devices)
    }

    /// `-l`: print the list.
    fn list(&mut self) -> (turn: Turn)
        requires
            old(self).devices is Some,
        ensures
            old(self).has_listed(old(self).devices->0@, *final(self), turn),
    {
        let mut text = String::new();
        if let Some(devices) = &self.devices {
            crate::remote::table::render(&self.at, devices, &mut text);
            assert(text@ =~= crate::remote::table::listing_text(self.at.text(), devices@));
        }
        self.point = Point::ListPrinting;
        let turn = Turn { say: Vec::new(), act: Act::Print(text) };
        assert(crate::text::texts(turn.say@) =~= Seq::empty());
        turn
    }

    /// What is said where no number names the target, and nothing else.
    pub open spec fn is_lost(self, after: Session, turn: Turn) -> bool {
        &&& after == self.now_at(Point::Over)
        &&& says(turn, Seq::empty())
        &&& refuses(turn, self.class(), self.gone_text())
    }

    /// What contradicts itself.
    pub open spec fn contradicts(self, after: Session, turn: Turn, what: Seq<char>) -> bool {
        &&& after == self.now_at(Point::Over)
        &&& says(turn, Seq::empty())
        &&& refuses(turn, self.class(), contradiction_text(what))
    }

    /// How `--diag` begins.
    pub open spec fn diag_begun(self, after: Session, turn: Turn) -> bool {
        match self.number() {
            None => self.is_lost(after, turn),
            Some(index) => after == self.now_at(Point::DiagAsked) && says(turn, Seq::empty()) && asks(
                turn,
                Request::Diag { index },
                DIAG@,
            ),
        }
    }

    /// `--diag`: ask for the report.
    fn diag(&mut self) -> (turn: Turn)
        requires
            old(self).next < old(self).plan.actions.len(),
        ensures
            old(self).diag_begun(*final(self), turn),
    {
        match self.wire_index() {
            Err(error) => self.finish(error),
            Ok(index) => self.ask(Point::DiagAsked, Request::Diag { index }, DIAG),
        }
    }

    /// How a bootstrap begins.
    pub open spec fn boot_begun(self, trigger: BootstrapTrigger, after: Session, turn: Turn) -> bool {
        match self.number() {
            None => self.is_lost(after, turn),
            Some(index) => {
                let boot = Boot { index, trigger };
                match self.devices {
                    None => after == self.now_at(Point::EntryAsked(boot)) && says(turn, Seq::empty()) && asks(
                        turn,
                        Request::Discover,
                        LIST@,
                    ),
                    Some(devices) => self.has_looked(boot, devices@, after, turn),
                }
            },
        }
    }

    fn boot(&mut self, trigger: BootstrapTrigger) -> (turn: Turn)
        requires
            old(self).next < old(self).plan.actions.len(),
        ensures
            old(self).boot_begun(trigger, *final(self), turn),
    {
        let index = match self.wire_index() {
            Err(error) => return self.finish(error),
            Ok(index) => index,
        };
        let boot = Boot { index, trigger };
        if self.devices.is_none() {
            return self.ask(Point::EntryAsked(boot), Request::Discover, LIST);
        }
        self.settle(boot)
    }

    /// How an erase begins.
    pub open spec fn erase_begun(self, after: Session, turn: Turn) -> bool {
        &&& says(turn, seq![erasing_text(self.at.text())])
        &&& match self.number() {
            None => after == self.now_at(Point::Over) && refuses(turn, self.class(), self.gone_text()),
            Some(number) => {
                &&& after == self.now_at(Point::EraseAsked)
                &&& turn.act matches Act::Ask {
                    request: Request::Write { index, variant, alt, image, crc32, verify },
                    doing,
                }
                &&& index == number
                &&& variant@.len() == 0
                &&& alt@ == vstd::utf8::encode_utf8(ERASE_ALT@)
                &&& image@ == vstd::utf8::encode_utf8(ERASE_TOKEN@)
                &&& crc32 == crate::remote::crc::crc32_of(image@)
                &&& verify is None
                &&& doing@ == ERASE@
            },
        }
    }

    /// `--erase`: the wipe token, written to the alt-setting that erases.
    fn erase(&mut self) -> (turn: Turn)
        requires
            old(self).next < old(self).plan.actions.len(),
        ensures
            old(self).erase_begun(*final(self), turn),
    {
        let place = self.at.display();
        let mut say: Vec<String> = Vec::new();
        say.push(erasing(place.as_str()));
        assert(crate::text::texts(say@) =~= seq![erasing_text(self.at.text())]);
        let index = match self.wire_index() {
            Err(error) => {
                let mut turn = self.finish(error);
                turn.say = say;
                return turn;
            },
            Ok(index) => index,
        };
        self.point = Point::EraseAsked;
        let request = Request::Write {
            index,
            variant: Vec::new(),
            alt: copy_bytes(ERASE_ALT.as_bytes()),
            image: copy_bytes(ERASE_TOKEN.as_bytes()),
            crc32: crc32(ERASE_TOKEN.as_bytes()),
            verify: None,
        };
        Turn { say, act: Act::Ask { request, doing: ERASE } }
    }

    /// How a write begins.
    pub open spec fn write_begun(self, after: Session, turn: Turn) -> bool {
        let taken = Session { loaded: Loaded { write: None, ..self.loaded }, ..self };
        let verified = self.plan.actions@.contains(Action::Verify);
        match self.loaded.write {
            None => self.contradicts(after, turn, "-w reached the wire with no file behind it"@),
            Some(file) => match self.number() {
                None => taken.is_lost(after, turn),
                Some(number) => {
                    &&& after == taken.now_at(Point::WriteAsked)
                    &&& says(
                        turn,
                        seq![
                            sending_text(
                                file@.len(),
                                self.at.text(),
                                number as nat,
                                alt_words(self.plan.target.alt),
                                if verified {
                                    ", to be verified after writing"@
                                } else {
                                    ""@
                                },
                            ),
                        ],
                    )
                    &&& turn.act matches Act::Ask {
                        request: Request::Write { index, variant, alt, image, crc32, verify },
                        doing,
                    }
                    &&& index == number
                    &&& variant@.len() == 0
                    &&& alt@ == alt_spelling(self.plan.target.alt)
                    &&& image == file
                    &&& crc32 == crate::remote::crc::crc32_of(file@)
                    &&& verify == (if verified {
                        Some(true)
                    } else {
                        None
                    })
                    &&& doing@ == (if verified {
                        WRITE_AND_VERIFY@
                    } else {
                        WRITE@
                    })
                },
            },
        }
    }

    /// `-w`: send the image, with `--verify` as part of the same command.
    fn write(&mut self) -> (turn: Turn)
        requires
            old(self).next < old(self).plan.actions.len(),
        ensures
            old(self).write_begun(*final(self), turn),
    {
        let image = match self.loaded.write.take() {
            None => return self.finish(disagreement("-w reached the wire with no file behind it")),
            Some(image) => image,
        };
        let index = match self.wire_index() {
            Err(error) => return self.finish(error),
            Ok(index) => index,
        };
        let verified = self.plan.does(&Action::Verify);
        let doing = if verified {
            WRITE_AND_VERIFY
        } else {
            WRITE
        };
        let after = if verified {
            ", to be verified after writing"
        } else {
            ""
        };
        let place = self.at.display();
        let phrase = alt_phrase(&self.plan.target.alt);
        let mut say: Vec<String> = Vec::new();
        let line = sending(image.len() as u64, place.as_str(), index as u64, phrase.as_str(), after);
        let ghost said = line@;
        say.push(line);
        assert(crate::text::texts(say@) =~= seq![said]);
        let request = Request::Write {
            index,
            variant: Vec::new(),
            alt: alt_bytes(&self.plan.target.alt),
            crc32: crc32(image.as_slice()),
            image,
            verify: if verified {
                Some(true)
            } else {
                None
            },
        };
        self.point = Point::WriteAsked;
        Turn { say, act: Act::Ask { request, doing } }
    }

    /// How `--verify` goes.
    pub open spec fn verify_done(self, after: Session, turn: Turn) -> bool {
        if self.plan.actions@.contains(Action::Write) {
            after == self.one_done() && says(turn, Seq::empty()) && turn.act is Proceed
        } else {
            self.contradicts(
                after,
                turn,
                "--verify reached the wire with no -w beside it; cli::actions and remote::run disagree"@,
            )
        }
    }

    /// `--verify`: nothing of its own to do, because it was part of the write.
    fn verify(&mut self) -> (turn: Turn)
        requires
            old(self).next < old(self).plan.actions.len(),
        ensures
            old(self).verify_done(*final(self), turn),
    {
        if self.plan.does(&Action::Write) {
            return self.done();
        }
        self.finish(
            disagreement(
                "--verify reached the wire with no -w beside it; cli::actions and remote::run disagree",
            ),
        )
    }

    /// What is said before a read.
    pub open spec fn read_lines(self, index: u8) -> Seq<Seq<char>> {
        let line = reading_text(
            index as nat,
            alt_words(self.plan.target.alt),
            self.at.text(),
            self.plan.images.read->0@,
        );
        match self.plan.target.size {
            Some(limit) => seq![capped_text(limit as nat), line],
            None => seq![line],
        }
    }

    /// How a read begins.
    pub open spec fn read_begun(self, after: Session, turn: Turn) -> bool {
        match self.number() {
            None => self.is_lost(after, turn),
            Some(number) => if self.plan.images.read is None {
                self.contradicts(after, turn, "-r reached the wire with no path behind it"@)
            } else {
                &&& after == self.now_at(Point::ReadSent)
                &&& says(turn, self.read_lines(number))
                &&& turn.act matches Act::Send { request: Request::Read { index, variant, alt }, doing }
                &&& index == number
                &&& variant@.len() == 0
                &&& if self.plan.target.alt is Default {
                    alt is None
                } else {
                    alt matches Some(alt) && alt@ == alt_spelling(self.plan.target.alt)
                }
                &&& doing@ == READ@
            },
        }
    }

    /// `-r`: ask for the whole alt-setting.
    ///
    /// The wire carries no length, so a cap is this side's, and that is said before the
    /// transfer begins.
    fn read(&mut self) -> (turn: Turn)
        requires
            old(self).next < old(self).plan.actions.len(),
        ensures
            old(self).read_begun(*final(self), turn),
    {
        let index = match self.wire_index() {
            Err(error) => return self.finish(error),
            Ok(index) => index,
        };
        let path = match &self.plan.images.read {
            None => return self.finish(disagreement("-r reached the wire with no path behind it")),
            Some(path) => path.clone(),
        };
        let place = self.at.display();
        let phrase = alt_phrase(&self.plan.target.alt);
        let mut say: Vec<String> = Vec::new();
        if let Some(limit) = self.plan.target.size {
            say.push(capped(limit));
        }
        say.push(reading(index as u64, phrase.as_str(), place.as_str(), path.as_str()));
        assert(crate::text::texts(say@) =~= self.read_lines(index));
        let alt = match &self.plan.target.alt {
            AltSel::Default => None,
            other => Some(alt_bytes(other)),
        };
        self.point = Point::ReadSent;
        Turn { say, act: Act::Send { request: Request::Read { index, variant: Vec::new(), alt }, doing: READ } }
    }

    /// How the answer to a read is taken.
    pub open spec fn read_sent(self, after: Session, turn: Turn) -> bool {
        if !self.loaded.read {
            self.contradicts(after, turn, "-r reached the wire with no open file behind it"@)
        } else {
            &&& after == self.now_at(Point::ReadStreaming)
            &&& says(turn, Seq::empty())
            &&& turn.act matches Act::Stream { path, limit }
            &&& path == self.plan.images.read->0
            &&& limit == self.plan.target.size
        }
    }

    fn stream(&mut self) -> (turn: Turn)
        requires
            old(self).next < old(self).plan.actions.len(),
            old(self).plan.images.read is Some,
        ensures
            old(self).read_sent(*final(self), turn),
    {
        if !self.loaded.read {
            return self.finish(disagreement("-r reached the wire with no open file behind it"));
        }
        let path = match &self.plan.images.read {
            Some(path) => path.clone(),
            None => String::new(),
        };
        self.point = Point::ReadStreaming;
        let turn = Turn { say: Vec::new(), act: Act::Stream { path, limit: self.plan.target.size } };
        assert(crate::text::texts(turn.say@) =~= Seq::empty());
        turn
    }

    /// How a reboot begins.
    pub open spec fn reboot_begun(self, after: Session, turn: Turn) -> bool {
        match self.number() {
            None => self.is_lost(after, turn),
            Some(index) => after == self.now_at(Point::RebootAsked { index }) && says(turn, Seq::empty()) && asks(
                turn,
                Request::Reboot { index },
                REBOOT@,
            ),
        }
    }

    /// `--reboot`: ask for it.
    fn reboot(&mut self) -> (turn: Turn)
        requires
            old(self).next < old(self).plan.actions.len(),
        ensures
            old(self).reboot_begun(*final(self), turn),
    {
        match self.wire_index() {
            Err(error) => self.finish(error),
            Ok(index) => self.ask(Point::RebootAsked { index }, Request::Reboot { index }, REBOOT),
        }
    }

    /// How the next action begins, or the run ends.
    pub open spec fn has_started(self, after: Session, turn: Turn) -> bool {
        if self.next >= self.plan.actions.len() {
            &&& after == self.now_at(Point::Over)
            &&& says(turn, Seq::empty())
            &&& turn.act == Act::Finish(Ok(()))
        } else {
            match self.plan.actions[self.next as int] {
                Action::List => match self.devices {
                    None => after == self.now_at(Point::ListAsked) && says(turn, Seq::empty()) && asks(
                        turn,
                        Request::Discover,
                        LIST@,
                    ),
                    Some(devices) => self.has_listed(devices@, after, turn),
                },
                Action::Diag => self.diag_begun(after, turn),
                Action::Bootstrap(trigger) => self.boot_begun(trigger, after, turn),
                Action::Erase => self.erase_begun(after, turn),
                Action::Write => self.write_begun(after, turn),
                Action::Verify => self.verify_done(after, turn),
                Action::Read => self.read_begun(after, turn),
                Action::Reboot => self.reboot_begun(after, turn),
            }
        }
    }

    /// Begin the next action.
    fn act(&mut self) -> (turn: Turn)
        requires
            old(self).wf(),
            old(self).point is Ready,
        ensures
            old(self).has_started(*final(self), turn),
    {
        if self.next >= self.plan.actions.len() {
            self.point = Point::Over;
            let turn = Turn { say: Vec::new(), act: Act::Finish(Ok(())) };
            assert(crate::text::texts(turn.say@) =~= Seq::empty());
            return turn;
        }
        match self.plan.actions[self.next] {
            Action::List => {
                if self.devices.is_none() {
                    return self.ask(Point::ListAsked, Request::Discover, LIST);
                }
                self.list()
            },
            Action::Diag => self.diag(),
            Action::Bootstrap(trigger) => self.boot(trigger),
            Action::Erase => self.erase(),
            Action::Write => self.write(),
            Action::Verify => self.verify(),
            Action::Read => self.read(),
            Action::Reboot => self.reboot(),
        }
    }

    // -----------------------------------------------------------------
    // What came of it.
    // -----------------------------------------------------------------
    /// What a list that arrived leads to.
    pub open spec fn list_arrived(self, listed: Result<Vec<DeviceEntry>, String>, after: Session, turn: Turn) -> bool {
        match listed {
            Err(reason) => {
                &&& after == self.now_at(Point::Over)
                &&& says(turn, Seq::empty())
                &&& refuses(turn, OpClass::Remote, unreadable_list_text(self.at.text(), reason@))
            },
            Ok(devices) => {
                let newest = self.with_list(devices);
                match self.point {
                    Point::ListAsked => newest.has_listed(devices@, after, turn),
                    Point::EntryAsked(boot) => newest.has_looked(boot, devices@, after, turn),
                    Point::SettleAsked(settle) => newest.has_polled(settle, devices@, after, turn),
                    _ => false,
                }
            },
        }
    }

    fn discover(&mut self, listed: Result<Vec<DeviceEntry>, String>) -> (turn: Turn)
        requires
            old(self).wf(),
            old(self).point is ListAsked || old(self).point is EntryAsked || old(self).point is SettleAsked,
        ensures
            old(self).list_arrived(listed, *final(self), turn),
    {
        let devices = match listed {
            Err(reason) => {
                let place = self.at.display();
                return self.finish(RemoteError::protocol(unreadable_list(place.as_str(), reason.as_str())));
            },
            Ok(devices) => devices,
        };
        self.discovered(devices);
        match self.point {
            Point::EntryAsked(boot) => self.settle(boot),
            Point::SettleAsked(settle) => self.poll(settle),
            _ => self.list(),
        }
    }

    /// What an answer leads to.
    pub open spec fn answer_arrived(self, payload: Seq<u8>, after: Session, turn: Turn) -> bool {
        match self.point {
            Point::DiagAsked => {
                &&& after == self.now_at(Point::DiagPrinting)
                &&& says(turn, Seq::empty())
                &&& turn.act matches Act::Print(text)
                &&& text@ == report_text(crate::text::lossy_text(payload))
            },
            Point::BootstrapAsked { index } => {
                &&& after == (Session { devices: None, ..self }).one_done()
                &&& says(turn, seq![booted_text(index as nat)])
                &&& turn.act is Proceed
            },
            Point::EraseAsked => {
                &&& after == self.one_done()
                &&& says(turn, seq![ERASED@])
                &&& turn.act is Proceed
            },
            Point::WriteAsked => {
                &&& after == self.one_done()
                &&& says(turn, Seq::empty())
                &&& turn.act is Proceed
            },
            Point::RebootAsked { index } => {
                &&& after == self.one_done()
                &&& says(turn, seq![rebooted_text(index as nat)])
                &&& turn.act is Proceed
            },
            _ => false,
        }
    }

    fn answered(&mut self, payload: Vec<u8>) -> (turn: Turn)
        requires
            old(self).wf(),
            old(self).awaits(Event::Answered(payload)),
        ensures
            old(self).answer_arrived(payload@, *final(self), turn),
    {
        match self.point {
            Point::DiagAsked => {
                let text = lossy(&payload);
                self.point = Point::DiagPrinting;
                let turn = Turn { say: Vec::new(), act: Act::Print(report(text.as_str())) };
                assert(crate::text::texts(turn.say@) =~= Seq::empty());
                turn
            },
            Point::BootstrapAsked { index } => {
                self.devices = None;
                let mut turn = self.done();
                turn.say = Vec::new();
                turn.say.push(booted(index as u64));
                assert(crate::text::texts(turn.say@) =~= seq![booted_text(index as nat)]);
                turn
            },
            Point::EraseAsked => {
                let mut turn = self.done();
                turn.say = Vec::new();
                turn.say.push(ERASED.to_owned());
                assert(crate::text::texts(turn.say@) =~= seq![ERASED@]);
                turn
            },
            Point::RebootAsked { index } => {
                let mut turn = self.done();
                turn.say = Vec::new();
                turn.say.push(rebooted(index as u64));
                assert(crate::text::texts(turn.say@) =~= seq![rebooted_text(index as nat)]);
                turn
            },
            _ => self.done(),
        }
    }

    /// What cannot be printed.
    pub open spec fn printing(self) -> Seq<char> {
        if self.point is ListPrinting {
            "cannot write the device list to stdout"@
        } else {
            "cannot write the diagnostics to stdout"@
        }
    }

    /// What printing leads to.
    pub open spec fn was_printed(self, printed: Result<(), FileError>, after: Session, turn: Turn) -> bool {
        &&& says(turn, Seq::empty())
        &&& match printed {
            Ok(_) => after == self.one_done() && turn.act is Proceed,
            Err(fault) => {
                let text = self.printing() + ": "@ + fault.message@;
                &&& after == self.now_at(Point::Over)
                &&& turn.act matches Act::Finish(Err(failure))
                &&& failure.class == self.class()
                &&& failure.error matches Error::Io(file)
                &&& file.kind == fault.kind
                &&& file.message@ == text
                &&& failure.stated matches Some(stated)
                &&& stated@ == text
            },
        }
    }

    fn printed(&mut self, printed: Result<(), FileError>) -> (turn: Turn)
        requires
            old(self).wf(),
            old(self).point is ListPrinting || old(self).point is DiagPrinting,
        ensures
            old(self).was_printed(printed, *final(self), turn),
    {
        match printed {
            Ok(_) => self.done(),
            Err(fault) => {
                let what = if matches!(self.point, Point::ListPrinting) {
                    "cannot write the device list to stdout"
                } else {
                    "cannot write the diagnostics to stdout"
                };
                self.finish(RemoteError::file(what, fault.kind, fault.message.as_str()))
            },
        }
    }

    /// What a failure leads to.
    pub open spec fn has_failed(self, error: RemoteError, after: Session, turn: Turn) -> bool {
        &&& after == self.now_at(Point::Over)
        &&& says(turn, Seq::empty())
        &&& fails(turn, if self.point is WaitAsked {
            OpClass::Device
        } else {
            self.class()
        }, error)
    }

    fn failed(&mut self, error: RemoteError) -> (turn: Turn)
        requires
            old(self).wf(),
            old(self).awaits(Event::Failed(error)),
        ensures
            old(self).has_failed(error, *final(self), turn),
    {
        if matches!(self.point, Point::WaitAsked { .. }) {
            self.point = Point::Over;
            let turn = Turn { say: Vec::new(), act: Act::Finish(Err(error.failure(OpClass::Device))) };
            assert(crate::text::texts(turn.say@) =~= Seq::empty());
            return turn;
        }
        self.finish(error)
    }

    /// What a sleep leads to: the list is asked for again, whatever the last one said.
    pub open spec fn has_slept(self, after: Session, turn: Turn) -> bool {
        let point = match self.point {
            Point::Settling(settle) => Point::SettleAsked(settle),
            _ => Point::WaitAsked { announced: true },
        };
        &&& after == Session { devices: None, point, ..self }
        &&& says(turn, Seq::empty())
        &&& asks(turn, Request::Discover, LIST@)
    }

    fn slept(&mut self) -> (turn: Turn)
        ensures
            old(self).has_slept(*final(self), turn),
    {
        self.devices = None;
        let point = match self.point {
            Point::Settling(settle) => Point::SettleAsked(settle),
            _ => Point::WaitAsked { announced: true },
        };
        self.ask(point, Request::Discover, LIST)
    }

    /// What a read that is saved leads to.
    pub open spec fn was_saved(self, count: u64, after: Session, turn: Turn) -> bool {
        &&& after == self.one_done()
        &&& says(turn, seq![saved_text(count as nat, self.plan.images.read->0@)])
        &&& turn.act is Proceed
    }

    fn saved(&mut self, count: u64) -> (turn: Turn)
        requires
            old(self).next < old(self).plan.actions.len(),
            old(self).plan.images.read is Some,
        ensures
            old(self).was_saved(count, *final(self), turn),
    {
        let line = match &self.plan.images.read {
            Some(path) => saved(count, path.as_str()),
            None => String::new(),
        };
        let ghost said = line@;
        let mut turn = self.done();
        turn.say = Vec::new();
        turn.say.push(line);
        assert(crate::text::texts(turn.say@) =~= seq![said]);
        turn
    }

    /// What comes of an event, wherever the run stands.
    pub open spec fn stepped(self, event: Event, after: Session, turn: Turn) -> bool {
        match event {
            Event::Went => if self.point is Start {
                self.has_begun(after, turn)
            } else {
                self.has_started(after, turn)
            },
            Event::Listed(listed) => match self.point {
                Point::WaitAsked { announced } => self.has_waited(announced, listed, after, turn),
                _ => self.list_arrived(listed, after, turn),
            },
            Event::Answered(payload) => self.answer_arrived(payload@, after, turn),
            Event::Sent => self.read_sent(after, turn),
            Event::Saved(count) => self.was_saved(count, after, turn),
            Event::Slept => self.has_slept(after, turn),
            Event::Printed(printed) => self.was_printed(printed, after, turn),
            Event::Failed(error) => self.has_failed(error, after, turn),
        }
    }

    /// Take what came of what the run did, and say what it does next.
    pub fn step(&mut self, event: Event) -> (turn: Turn)
        requires
            old(self).wf(),
            old(self).awaits(event),
        ensures
            final(self).wf(),
            old(self).stepped(event, *final(self), turn),
    {
        match event {
            Event::Went => {
                if matches!(self.point, Point::Start) {
                    self.begin()
                } else {
                    self.act()
                }
            },
            Event::Listed(listed) => match self.point {
                Point::WaitAsked { announced } => self.wait_for_a_device(announced, listed),
                _ => self.discover(listed),
            },
            Event::Answered(payload) => self.answered(payload),
            Event::Sent => self.stream(),
            Event::Saved(count) => self.saved(count),
            Event::Slept => self.slept(),
            Event::Printed(printed) => self.printed(printed),
            Event::Failed(error) => self.failed(error),
        }
    }
}

/// Does a turn ask for a bootstrap with the loaders of this name?
pub open spec fn boots(turn: Turn, target: u8, name: Seq<char>) -> bool {
    &&& turn.act matches Act::Ask { request: Request::Bootstrap { index, variant, blobs }, doing }
    &&& index == target
    &&& variant@ == vstd::utf8::encode_utf8(name)
    &&& blobs is None
    &&& doing@ == BOOTSTRAP@
}

// ---------------------------------------------------------------------------
// The laws of a run.
// ---------------------------------------------------------------------------
/// A run does what its plan says and in its order: the plan never changes, and the only way
/// on is from an action to the one behind it.
pub proof fn law_a_run_follows_its_plan(before: Session, event: Event, after: Session, turn: Turn)
    requires
        before.wf(),
        before.awaits(event),
        before.stepped(event, after, turn),
    ensures
        after.plan == before.plan,
        after.at == before.at,
        after.next == before.next || (after.next == before.next + 1 && after.point is Ready),
{
}

/// A run that succeeds has done everything: it is not over with success while an action is
/// left, whatever the daemon answered.
pub proof fn law_success_means_all_of_it(before: Session, event: Event, after: Session, turn: Turn)
    requires
        before.wf(),
        before.awaits(event),
        before.stepped(event, after, turn),
        turn.act == Act::Finish(Ok(())),
    ensures
        before.next == before.plan.actions.len(),
        before.point is Ready,
{
}

/// Does a turn ask for a bootstrap of this device?
pub open spec fn bootstraps(turn: Turn, target: u8) -> bool {
    turn.act matches Act::Ask { request: Request::Bootstrap { index, .. }, .. } && index == target
}

/// Only a device in the bootrom is ever bootstrapped: the row that a bootstrap names in the
/// list the daemon holds is one, and it is the row that the run goes on to talk about.
pub proof fn law_only_a_bootrom_is_bootstrapped(before: Session, event: Event, after: Session, turn: Turn, target: u8)
    requires
        before.wf(),
        before.awaits(event),
        before.stepped(event, after, turn),
        bootstraps(turn, target),
    ensures
        after.devices matches Some(devices) && row(devices@, target) matches Some(entry) && entry.stage == 0
            && after.chosen == Chosen::Row(Anchor { index: target, bus: entry.bus, address: entry.address }),
{
}

/// A device that took the target's row while the target was away is not bootstrapped in its
/// place: what is bootstrapped at the end of a wait is the device the wait was for.
pub proof fn law_a_wait_bootstraps_what_it_waited_for(
    before: Session,
    settle: Settle,
    event: Event,
    after: Session,
    turn: Turn,
    target: u8,
)
    requires
        before.wf(),
        before.point == Point::SettleAsked(settle),
        before.awaits(event),
        before.stepped(event, after, turn),
        bootstraps(turn, target),
    ensures
        target == settle.boot.index,
        after.devices matches Some(devices) && row(devices@, target) matches Some(entry) && settle.anchor.is_still(
            entry,
        ),
{
}

/// A wait ends: every look that does not settle it leaves one less, and the last one decides.
pub proof fn law_a_wait_for_the_target_ends(before: Session, settle: Settle, event: Event, after: Session, turn: Turn)
    requires
        before.wf(),
        before.point == Point::SettleAsked(settle),
        before.awaits(event),
        before.stepped(event, after, turn),
    ensures
        after.point matches Point::Settling(later) ==> later.left == settle.left - 1 && later.boot == settle.boot
            && later.anchor == settle.anchor,
        settle.left == 1 ==> !(after.point is Settling),
{
}

/// While a target is waited for, nothing but the list is asked for.
pub proof fn law_a_wait_sends_nothing_else(before: Session, event: Event, after: Session, turn: Turn)
    requires
        before.wf(),
        before.awaits(event),
        before.stepped(event, after, turn),
        after.point is Settling || after.point is SettleAsked || after.point is WaitSleeping || after.point is WaitAsked,
    ensures
        turn.act is Sleep || asks(turn, Request::Discover, LIST@),
{
}

/// An empty bench is not waited out: only a target that was seen half way into its boot is
/// waited for, and only where nothing on the command line names its loaders.
pub proof fn law_only_a_target_half_way_is_waited_for(before: Session, event: Event, after: Session, turn: Turn)
    requires
        before.wf(),
        before.awaits(event),
        before.stepped(event, after, turn),
        after.point is Settling,
        !(before.point is SettleAsked),
    ensures
        before.plan.target.cpu is None,
        before.loaded.loaders is None,
        after.devices matches Some(devices) && after.point matches Point::Settling(settle) && row(
            devices@,
            settle.boot.index,
        ) matches Some(entry) && entry.stage == 0 && entry.variant.ordinal == UNKNOWN_VARIANT,
{
}

/// A list is not trusted past a bootstrap: what is asked for after one is a fresh list.
pub proof fn law_a_bootstrap_makes_the_list_stale(
    before: Session,
    index: u8,
    payload: Vec<u8>,
    after: Session,
    turn: Turn,
)
    requires
        before.point == (Point::BootstrapAsked { index }),
        before.stepped(Event::Answered(payload), after, turn),
    ensures
        after.devices is None,
{
}

/// A failure of an operation has the class that the same operation has without a daemon; only
/// a failure of the conversation itself is the protocol's.
pub proof fn law_a_failure_has_its_operations_class(
    before: Session,
    event: Event,
    after: Session,
    turn: Turn,
    failure: Failure,
)
    requires
        before.wf(),
        before.awaits(event),
        before.stepped(event, after, turn),
        turn.act == Act::Finish(Err(failure)),
        !(before.point is WaitAsked),
    ensures
        failure.class == crate::run::class(before.plan.actions[before.next as int]) || failure.class is Remote,
{
}

/// The device that a command names, where it names one.
pub open spec fn names(act: Act) -> Option<u8> {
    match act {
        Act::Ask { request, .. } => named_in(request),
        Act::Send { request, .. } => named_in(request),
        _ => None,
    }
}

/// The device that a request names, where it names one.
pub open spec fn named_in(request: Request) -> Option<u8> {
    match request {
        Request::Discover => None,
        Request::Diag { index } => Some(index),
        Request::Bootstrap { index, .. } => Some(index),
        Request::Write { index, .. } => Some(index),
        Request::Read { index, .. } => Some(index),
        Request::Reboot { index } => Some(index),
    }
}

/// Every command names the device that was picked, whichever command it is: the operator's own
/// number while no row was picked, and from then on the position of the row that was. Where that
/// row is gone, no command is sent.
pub proof fn law_every_command_names_the_picked_device(
    before: Session,
    event: Event,
    after: Session,
    turn: Turn,
    number: u8,
)
    requires
        before.wf(),
        before.awaits(event),
        before.stepped(event, after, turn),
        names(turn.act) == Some(number),
    ensures
        match after.chosen {
            Chosen::Operator => number == before.plan.target.index,
            Chosen::Row(anchor) => number == anchor.index,
            Chosen::Gone(_) => false,
        },
        bootstraps(turn, number) ==> {
            &&& after.devices matches Some(devices)
            &&& number < devices.len()
            &&& after.chosen matches Chosen::Row(anchor)
            &&& anchor.bus == devices[number as int].bus
            &&& anchor.address == devices[number as int].address
        },
        !bootstraps(turn, number) ==> after.chosen == before.chosen && event is Went,
{
}

/// Is this how the wire spells an alt-setting: its name, or the digits of its number, or nothing
/// where none was named?
pub open spec fn spells(bytes: Seq<u8>, alt: AltSel) -> bool {
    match alt {
        AltSel::Name(name) => bytes == vstd::utf8::encode_utf8(name@),
        AltSel::Index(number) => bytes == vstd::utf8::encode_utf8(crate::text::decimal(number as nat)),
        AltSel::Default => bytes.len() == 0,
    }
}

/// Is this the command that an action of a plan asks for, with everything that goes with it?
pub open spec fn commands(plan: Plan, loaded: Loaded, action: Action, act: Act) -> bool {
    match action {
        Action::Diag => act matches Act::Ask { request: Request::Diag { .. }, .. },
        Action::Erase => act matches Act::Ask { request: Request::Write { variant, alt, image, crc32, verify, .. }, .. }
            && variant@.len() == 0 && alt@ == vstd::utf8::encode_utf8("erase"@) && image@ == vstd::utf8::encode_utf8("XBURST-FLASH-WIPE"@) && crc32
            == crate::remote::crc::crc32_of(image@) && verify is None,
        Action::Write => act matches Act::Ask { request: Request::Write { variant, alt, image, crc32, verify, .. }, .. }
            && variant@.len() == 0 && spells(
            alt@,
            plan.target.alt,
        ) && Some(image@) == match loaded.write {
            Some(file) => Some(file@),
            None => None,
        } && crc32 == crate::remote::crc::crc32_of(image@) && verify == (if plan.actions@.contains(Action::Verify) {
            Some(true)
        } else {
            None
        }),
        Action::Read => act matches Act::Send { request: Request::Read { variant, alt, .. }, .. } && variant@.len() == 0
            && match alt {
            Some(bytes) => !(plan.target.alt is Default) && spells(bytes@, plan.target.alt),
            None => plan.target.alt is Default,
        },
        Action::Reboot => act matches Act::Ask { request: Request::Reboot { .. }, .. },
        _ => false,
    }
}

/// A command is the one that the plan has next, and carries what goes with it. So a write
/// carries the whole image and its check, to the alt-setting that was asked for, and it asks for
/// the comparison exactly where `--verify` is in the plan, whatever else is.
pub proof fn law_a_command_is_what_the_plan_has_next(before: Session, event: Event, after: Session, turn: Turn)
    requires
        before.wf(),
        before.awaits(event),
        before.stepped(event, after, turn),
        names(turn.act) is Some,
    ensures
        after.next == before.next,
        before.next < before.plan.actions.len(),
        event is Went ==> commands(
            before.plan,
            before.loaded,
            before.plan.actions[before.next as int],
            turn.act,
        ) || (before.plan.actions[before.next as int] is Bootstrap && turn.act matches Act::Ask {
            request: Request::Bootstrap { .. },
            ..
        }),
        !(event is Went) ==> turn.act matches Act::Ask { request: Request::Bootstrap { .. }, .. },
{
}

/// A write is compared exactly where that was asked for: every write of an image, to whatever
/// alt-setting but the one that erases, asks for it if and only if the plan holds `--verify`.
pub proof fn law_a_write_is_verified_where_that_was_asked(
    before: Session,
    event: Event,
    after: Session,
    turn: Turn,
    request: Request,
    doing: &'static str,
)
    requires
        before.wf(),
        before.awaits(event),
        before.stepped(event, after, turn),
        turn.act == (Act::Ask { request, doing }),
        request is Write,
    ensures
        request matches Request::Write { alt, verify, .. } && ((alt@ != vstd::utf8::encode_utf8("erase"@)
            || before.plan.actions[before.next as int] is Write) ==> verify == (if before.plan.actions@.contains(
            Action::Verify,
        ) {
            Some(true)
        } else {
            None
        })),
        before.plan.actions[before.next as int] is Write || before.plan.actions[before.next as int] is Erase,
{
}

/// A bootstrap is asked for with the loaders that were chosen: the pair that was read, each image
/// in its own place, or the variant that was named, or the one that the daemon reports of that
/// very row.
pub proof fn law_a_bootstrap_carries_the_chosen_loaders(
    before: Session,
    event: Event,
    after: Session,
    turn: Turn,
    number: u8,
    variant: Vec<u8>,
    blobs: Option<BootPair>,
    doing: &'static str,
)
    requires
        before.wf(),
        before.awaits(event),
        before.stepped(event, after, turn),
        turn.act == (Act::Ask { request: Request::Bootstrap { index: number, variant, blobs }, doing }),
    ensures
        blobs is Some <==> before.loaded.loaders is Some,
        before.loaded.loaders matches Some(read) ==> (blobs matches Some(pair) && pair.spl@ == read.stage1@ && pair.uboot@
            == read.uboot@ && variant@.len() == 0),
        before.loaded.loaders is None ==> match before.plan.target.cpu {
            Some(forced) => variant@ == vstd::utf8::encode_utf8(forced.loader_dir@),
            None => {
                &&& after.devices matches Some(devices)
                &&& number < devices.len()
                &&& devices[number as int].variant.name matches Some(name)
                &&& variant@ == vstd::utf8::encode_utf8(name@)
            },
        },
{
}

/// A read goes to the file that was named, and no further than `--size` says.
pub proof fn law_a_read_goes_to_its_file(before: Session, event: Event, after: Session, turn: Turn)
    requires
        before.wf(),
        before.awaits(event),
        before.stepped(event, after, turn),
    ensures
        turn.act matches Act::Stream { path, limit } ==> event is Sent && before.plan.images.read == Some(path) && limit
            == before.plan.target.size && before.loaded.read,
        event is Sent && before.loaded.read ==> turn.act is Stream,
        event is Saved ==> turn.act is Proceed && after.next == before.next + 1,
{
}

/// An answer ends the command it is the answer to, and nothing else does: the action is done, or
/// what the daemon reports is printed first.
pub proof fn law_an_action_is_done_by_its_answer(before: Session, event: Event, after: Session, turn: Turn)
    requires
        before.wf(),
        before.awaits(event),
        before.stepped(event, after, turn),
    ensures
        event is Answered ==> (if before.point is DiagAsked {
            turn.act is Print && after.point is DiagPrinting && after.next == before.next
        } else {
            turn.act is Proceed && after.next == before.next + 1
        }),
        event is Printed ==> (event matches Event::Printed(printed) && if printed is Ok {
            turn.act is Proceed && after.next == before.next + 1
        } else {
            turn.act matches Act::Finish(Err(_))
        }),
        after.next != before.next ==> event is Answered || event is Saved || event is Printed || event is Listed || event
            is Went,
        event is Went && after.next != before.next ==> before.plan.actions[before.next as int] is Verify
            || before.plan.actions[before.next as int] is Bootstrap,
        event is Failed ==> turn.act matches Act::Finish(Err(_)),
        after.point is Over <==> turn.act is Finish,
{
}

/// A wait lasts until the daemon sees something, and no longer; without `--wait` there is none.
pub proof fn law_a_wait_lasts_until_something_is_there(before: Session, event: Event, after: Session, turn: Turn)
    requires
        before.wf(),
        before.awaits(event),
        before.stepped(event, after, turn),
    ensures
        before.point is Start ==> (if before.plan.wait {
            (turn.act matches Act::Ask { request: Request::Discover, .. }) && after.point is WaitAsked
        } else {
            turn.act is Proceed && after.point is Ready
        }),
        before.point is WaitAsked ==> (event matches Event::Listed(Ok(devices)) ==> if devices.len() > 0 {
            turn.act is Proceed && after.point is Ready
        } else {
            turn.act is Sleep && after.point is WaitSleeping
        }),
        before.point is WaitSleeping ==> (turn.act matches Act::Ask { request: Request::Discover, .. }) && after.point
            is WaitAsked,
{
}

/// What a bootstrap does with a row is decided by the stage of that row: a gadget needs none and
/// the action is done, a bootrom gets one or is waited for or cannot be identified, and anything
/// else is refused.
pub proof fn law_the_stage_decides_a_bootstrap(
    before: Session,
    boot: Boot,
    devices: Vec<DeviceEntry>,
    after: Session,
    turn: Turn,
)
    requires
        before.wf(),
        before.point == Point::EntryAsked(boot),
        before.stepped(Event::Listed(Ok(devices)), after, turn),
    ensures
        boot.index >= devices.len() ==> turn.act matches Act::Finish(Err(_)),
        boot.index < devices.len() ==> match devices[boot.index as int].stage {
            0u8 => after.next == before.next && (bootstraps(turn, boot.index) || turn.act is Sleep || (turn.act
                matches Act::Finish(Err(_)))),
            2u8 => after.next == before.next + 1 && turn.act is Proceed,
            _ => turn.act matches Act::Finish(Err(_)),
        },
        boot.index < devices.len() && devices[boot.index as int].stage == 0 && (before.loaded.loaders is Some
            || before.plan.target.cpu is Some || devices[boot.index as int].variant.name is Some)
            && devices[boot.index as int].variant.ordinal != UNKNOWN_VARIANT ==> bootstraps(turn, boot.index),
{
}

// ---------------------------------------------------------------------------
// What holds of a run from its beginning.
// ---------------------------------------------------------------------------
/// One step of a run.
pub struct Step {
    /// The run before it.
    pub before: Session,
    /// What came of what the run did.
    pub event: Event,
    /// What the run does next.
    pub turn: Turn,
    /// The run after it.
    pub after: Session,
}

impl Step {
    /// Is this a step that a run takes?
    pub open spec fn is_taken(self) -> bool {
        &&& self.before.wf()
        &&& self.before.awaits(self.event)
        &&& self.before.stepped(self.event, self.after, self.turn)
        &&& self.after.wf()
    }
}

/// A run that has not begun.
pub open spec fn is_fresh(session: Session, plan: Plan, loaded: Loaded) -> bool {
    &&& session.plan == plan
    &&& session.loaded == loaded
    &&& session.devices is None
    &&& session.chosen is Operator
    &&& session.next == 0
    &&& session.point is Start
}

/// Are these the steps of a run of this plan, from its beginning?
pub open spec fn is_run(plan: Plan, loaded: Loaded, steps: Seq<Step>) -> bool
    decreases steps.len(),
{
    steps.len() > 0 ==> {
        &&& steps.last().is_taken()
        &&& is_run(plan, loaded, steps.drop_last())
        &&& if steps.len() == 1 {
            is_fresh(steps.last().before, plan, loaded)
        } else {
            steps.last().before == steps.drop_last().last().after
        }
    }
}

/// Was the command of this action sent, while it was the next one?
pub open spec fn was_sent(plan: Plan, loaded: Loaded, steps: Seq<Step>, at: int) -> bool {
    exists|i: int|
        0 <= i < steps.len() && #[trigger] steps[i].before.next == at && commands(
            plan,
            loaded,
            plan.actions[at],
            steps[i].turn.act,
        )
}

/// Is this an action with a command of its own?
pub open spec fn has_a_command(action: Action) -> bool {
    action is Diag || action is Erase || action is Write || action is Read || action is Reboot
}

/// What a run has established, wherever it stands.
spec fn has_established(plan: Plan, loaded: Loaded, steps: Seq<Step>) -> bool {
    let session = steps.last().after;
    let sent = was_sent(plan, loaded, steps, session.next as int);
    &&& session.plan == plan
    &&& !(session.point is Start)
    &&& session.loaded.read == loaded.read
    &&& session.loaded.loaders == loaded.loaders
    &&& session.loaded.write == loaded.write || session.loaded.write is None
    &&& match session.point {
        Point::EntryAsked(boot) => plan.actions[session.next as int] is Bootstrap && (session.chosen is Operator
            ==> boot.index == plan.target.index),
        Point::Settling(settle) => plan.actions[session.next as int] is Bootstrap && (session.chosen is Operator
            ==> settle.boot.index == plan.target.index),
        Point::SettleAsked(settle) => plan.actions[session.next as int] is Bootstrap && (session.chosen is Operator
            ==> settle.boot.index == plan.target.index),
        Point::BootstrapAsked { .. } => plan.actions[session.next as int] is Bootstrap,
        Point::ListAsked => plan.actions[session.next as int] is List,
        Point::ListPrinting => plan.actions[session.next as int] is List,
        Point::DiagAsked => plan.actions[session.next as int] is Diag && sent,
        Point::DiagPrinting => plan.actions[session.next as int] is Diag && sent,
        Point::EraseAsked => plan.actions[session.next as int] is Erase && sent,
        Point::WriteAsked => plan.actions[session.next as int] is Write && sent,
        Point::ReadSent => plan.actions[session.next as int] is Read && sent,
        Point::ReadStreaming => plan.actions[session.next as int] is Read && sent,
        Point::RebootAsked { .. } => plan.actions[session.next as int] is Reboot && sent,
        _ => true,
    }
    &&& forall|at: int|
        0 <= at < session.next && #[trigger] has_a_command(plan.actions[at]) ==> was_sent(plan, loaded, steps, at)
}

proof fn lemma_sent_stays_sent(plan: Plan, loaded: Loaded, steps: Seq<Step>, at: int)
    requires
        steps.len() > 0,
        was_sent(plan, loaded, steps.drop_last(), at),
    ensures
        was_sent(plan, loaded, steps, at),
{
    let shorter = steps.drop_last();
    let i = choose|i: int|
        0 <= i < shorter.len() && #[trigger] shorter[i].before.next == at && commands(
            plan,
            loaded,
            plan.actions[at],
            shorter[i].turn.act,
        );
    assert(steps[i] == shorter[i]);
    assert(steps[i].before.next == at);
}

#[verifier::rlimit(60)]
#[verifier::spinoff_prover]
proof fn lemma_established(plan: Plan, loaded: Loaded, steps: Seq<Step>)
    requires
        is_run(plan, loaded, steps),
        steps.len() > 0,
    ensures
        has_established(plan, loaded, steps),
    decreases steps.len(),
{
    let step = steps.last();
    let shorter = steps.drop_last();
    if shorter.len() > 0 {
        lemma_established(plan, loaded, shorter);
    }
    let (before, after) = (step.before, step.after);
    law_a_run_follows_its_plan(before, step.event, after, step.turn);
    assert forall|at: int| shorter.len() > 0 && #[trigger] was_sent(plan, loaded, shorter, at) implies was_sent(
        plan,
        loaded,
        steps,
        at,
    ) by {
        lemma_sent_stays_sent(plan, loaded, steps, at);
    }
    if names(step.turn.act) is Some && step.event is Went {
        law_a_command_is_what_the_plan_has_next(before, step.event, after, step.turn);
        let action = plan.actions[before.next as int];
        if has_a_command(action) {
            assert(commands(plan, before.loaded, action, step.turn.act));
            assert(commands(plan, loaded, action, step.turn.act));
            assert(steps[steps.len() - 1].before.next == before.next);
            assert(was_sent(plan, loaded, steps, before.next as int));
        }
    }
    if shorter.len() > 0 {
        assert(was_sent(plan, loaded, shorter, before.next as int) ==> was_sent(plan, loaded, steps, before.next as int));
    }
    assert forall|at: int| 0 <= at < after.next && #[trigger] has_a_command(plan.actions[at]) implies was_sent(
        plan,
        loaded,
        steps,
        at,
    ) by {
        if at < before.next {
            assert(was_sent(plan, loaded, shorter, at));
        }
    }
}

/// No command is taken for done that was not sent: of every action that is behind a run, the run
/// has sent the command, with everything that goes with it.
pub proof fn law_every_command_was_sent(plan: Plan, loaded: Loaded, steps: Seq<Step>, at: int)
    requires
        is_run(plan, loaded, steps),
        steps.len() > 0,
        0 <= at < steps.last().after.next,
        has_a_command(plan.actions[at]),
    ensures
        was_sent(plan, loaded, steps, at),
{
    lemma_established(plan, loaded, steps);
    assert(has_a_command(plan.actions[at]));
}

/// Is this a write of these bytes that asks for the comparison?
pub open spec fn compares(act: Act, bytes: Seq<u8>) -> bool {
    act matches Act::Ask { request: Request::Write { image, verify, .. }, .. } && verify == Some(true) && image@ == bytes
}

/// `--verify` is never passed over in silence: a run that has it behind it has sent a write of the
/// whole image that asks for the comparison.
pub proof fn law_a_verify_was_asked_for(plan: Plan, loaded: Loaded, steps: Seq<Step>, at: int)
    requires
        is_run(plan, loaded, steps),
        crate::run::is_in_order(plan.actions@),
        steps.len() > 0,
        0 <= at < steps.last().after.next,
        plan.actions[at] is Verify,
    ensures
        loaded.write is Some,
        exists|i: int| 0 <= i < steps.len() && #[trigger] compares(steps[i].turn.act, loaded.write->0@),
{
    lemma_verified(plan, loaded, steps, at);
    lemma_established(plan, loaded, steps);
    assert(plan.actions@.contains(Action::Write));
    let write = choose|w: int| 0 <= w < plan.actions@.len() && plan.actions@[w] == Action::Write;
    assert(plan.actions@[at] == Action::Verify);
    assert(plan.actions@.contains(Action::Verify));
    if write > at {
        assert(crate::plan::documented_place(plan.actions@[at]) <= crate::plan::documented_place(plan.actions@[write]));
    }
    assert(has_a_command(plan.actions[write]));
    assert(was_sent(plan, loaded, steps, write));
    let i = choose|i: int|
        0 <= i < steps.len() && #[trigger] steps[i].before.next == write && commands(
            plan,
            loaded,
            plan.actions[write],
            steps[i].turn.act,
        );
    assert(compares(steps[i].turn.act, loaded.write->0@));
}

proof fn lemma_verified(plan: Plan, loaded: Loaded, steps: Seq<Step>, at: int)
    requires
        is_run(plan, loaded, steps),
        steps.len() > 0,
        0 <= at < steps.last().after.next,
        plan.actions[at] is Verify,
    ensures
        plan.actions@.contains(Action::Write),
    decreases steps.len(),
{
    let step = steps.last();
    let shorter = steps.drop_last();
    lemma_established(plan, loaded, steps);
    law_a_run_follows_its_plan(step.before, step.event, step.after, step.turn);
    if shorter.len() > 0 {
        lemma_established(plan, loaded, shorter);
        if at < step.before.next {
            lemma_verified(plan, loaded, shorter, at);
        }
    }
}

/// The row that a run picks first is the one that the operator named: its number is theirs, and
/// its identity is that of the row at that position of the list.
pub proof fn law_the_first_pick_is_the_operators(plan: Plan, loaded: Loaded, steps: Seq<Step>)
    requires
        is_run(plan, loaded, steps),
        steps.len() > 0,
        steps.last().before.chosen is Operator,
        !(steps.last().after.chosen is Operator),
    ensures
        steps.last().after.chosen matches Chosen::Row(anchor) && {
            &&& anchor.index == plan.target.index
            &&& steps.last().after.devices matches Some(devices)
            &&& anchor.index < devices.len()
            &&& anchor.bus == devices[anchor.index as int].bus
            &&& anchor.address == devices[anchor.index as int].address
        },
{
    lemma_established(plan, loaded, steps);
    if steps.drop_last().len() > 0 {
        lemma_established(plan, loaded, steps.drop_last());
    }
}

/// As long as no row was picked, what goes on the wire is the operator's number, and a pick is
/// kept: it is looked for in every newer list by its bus and address, and only a bootstrap of the
/// plan picks anew.
pub proof fn law_a_pick_is_kept(before: Session, event: Event, after: Session, turn: Turn)
    requires
        before.wf(),
        before.awaits(event),
        before.stepped(event, after, turn),
        !(before.chosen is Operator),
    ensures
        !(after.chosen is Operator),
        !(event is Listed || event is Went) ==> after.chosen == before.chosen,
        event is Went && !(before.plan.actions[before.next as int] is Bootstrap) ==> after.chosen == before.chosen,
        before.point is WaitAsked || before.point is ListAsked ==> (match (before.chosen, after.chosen) {
            (Chosen::Row(old), Chosen::Row(new)) => old.bus == new.bus && old.address == new.address,
            (Chosen::Row(old), Chosen::Gone(new)) => old.bus == new.bus && old.address == new.address,
            (Chosen::Gone(old), Chosen::Row(new)) => old.bus == new.bus && old.address == new.address,
            (Chosen::Gone(old), Chosen::Gone(new)) => old.bus == new.bus && old.address == new.address,
            _ => false,
        }),
{
}

/// A bootstrap is passed over only where it is not needed: the row that the run goes on to talk
/// about is a gadget in the list, or the daemon has answered that the bootstrap is done.
pub proof fn law_a_bootstrap_is_passed_over_only_for_a_gadget(
    plan: Plan,
    loaded: Loaded,
    steps: Seq<Step>,
)
    requires
        is_run(plan, loaded, steps),
        steps.len() > 0,
        steps.last().after.next == steps.last().before.next + 1,
        plan.actions[steps.last().before.next as int] is Bootstrap,
    ensures
        steps.last().event is Answered || {
            &&& steps.last().after.chosen matches Chosen::Row(anchor)
            &&& steps.last().after.devices matches Some(devices)
            &&& anchor.index < devices.len()
            &&& devices[anchor.index as int].stage == 2
            &&& devices[anchor.index as int].bus == anchor.bus
            &&& devices[anchor.index as int].address == anchor.address
        },
{
    lemma_established(plan, loaded, steps);
    if steps.drop_last().len() > 0 {
        lemma_established(plan, loaded, steps.drop_last());
    }
}

/// A target that is half way into its boot is waited for, by the identity it was seen with.
pub proof fn law_a_target_half_way_is_waited_for(
    before: Session,
    boot: Boot,
    devices: Vec<DeviceEntry>,
    after: Session,
    turn: Turn,
)
    requires
        before.wf(),
        before.point == Point::EntryAsked(boot),
        before.stepped(Event::Listed(Ok(devices)), after, turn),
        boot.index < devices.len(),
        devices[boot.index as int].stage == 0,
        devices[boot.index as int].variant.ordinal == 0xFF,
        before.plan.target.cpu is None,
        before.loaded.loaders is None,
    ensures
        turn.act is Sleep,
        after.next == before.next,
        after.point matches Point::Settling(settle) && settle.boot == boot && settle.anchor.bus
            == devices[boot.index as int].bus && settle.anchor.address == devices[boot.index as int].address
            && settle.left > 0,
{
}

/// What is bootstrapped at the end of a wait is the device the wait was for, by its bus and
/// address; and what is taken for it instead is a gadget on its bus.
pub proof fn law_a_wait_ends_with_the_same_device(
    before: Session,
    settle: Settle,
    devices: Vec<DeviceEntry>,
    after: Session,
    turn: Turn,
)
    requires
        before.wf(),
        before.point == Point::SettleAsked(settle),
        before.stepped(Event::Listed(Ok(devices)), after, turn),
    ensures
        names(turn.act) matches Some(number) ==> number == settle.boot.index && number < devices.len()
            && devices[number as int].bus == settle.anchor.bus && devices[number as int].address
            == settle.anchor.address && devices[number as int].stage == 0,
        after.next == before.next + 1 ==> settle.boot.index < devices.len()
            && devices[settle.boot.index as int].stage == 2 && devices[settle.boot.index as int].bus
            == settle.anchor.bus,
        turn.act is Sleep ==> settle.left > 1,
{
}

/// A failure is reported in its own words, and one of the conversation as the protocol's.
pub proof fn law_a_failure_is_reported(before: Session, error: RemoteError, after: Session, turn: Turn)
    requires
        before.wf(),
        before.awaits(Event::Failed(error)),
        before.stepped(Event::Failed(error), after, turn),
    ensures
        turn.act matches Act::Finish(Err(failure)) && {
            &&& failure.stated matches Some(stated) && stated@ == (match error {
                RemoteError::Protocol(message) => message@,
                RemoteError::Refused(message) => message@,
                RemoteError::Refusal(message) => message@,
                RemoteError::File(file) => file.message@,
            })
            &&& error is Protocol ==> failure.code() == 4
            &&& error is File ==> failure.code() == 3
            &&& failure.code() != 0
        },
        after.next == before.next,
{
}

/// What is sent is said to whom it is sent: a run never changes where it goes, and nothing that a
/// list says changes what was read from the files.
pub proof fn law_the_files_stay_what_they_were(before: Session, event: Event, after: Session, turn: Turn)
    requires
        before.wf(),
        before.awaits(event),
        before.stepped(event, after, turn),
    ensures
        after.at == before.at,
        after.loaded.loaders == before.loaded.loaders,
        after.loaded.read == before.loaded.read,
        after.loaded.write == before.loaded.write || (after.loaded.write is None && event is Went
            && before.plan.actions[before.next as int] is Write),
{
}

/// Is this part of what a turn says?
pub open spec fn tells(turn: Turn, part: Seq<char>) -> bool {
    exists|i: int| 0 <= i < turn.say.len() && crate::remote::wire::holds(#[trigger] turn.say[i]@, part)
}

proof fn lemma_tells(
    turn: Turn,
    lines: Seq<Seq<char>>,
    at: int,
    front: Seq<char>,
    part: Seq<char>,
    back: Seq<char>,
)
    requires
        says(turn, lines),
        0 <= at < lines.len(),
        lines[at] == front + part + back,
    ensures
        tells(turn, part),
{
    assert(turn.say.len() == crate::text::texts(turn.say@).len());
    assert(turn.say[at]@ == crate::text::texts(turn.say@)[at]);
    crate::remote::wire::lemma_holds(front, part, back);
}

/// What a run says of a device names the number that it sends: a write also says how many bytes it
/// sends, a read where they go and what the cap on them is, and a bootstrap and a reboot say after
/// the answer which device it was of.
pub proof fn law_what_is_said_names_what_is_sent(before: Session, event: Event, after: Session, turn: Turn)
    requires
        before.wf(),
        before.awaits(event),
        before.stepped(event, after, turn),
    ensures
        before.point is Start ==> tells(turn, before.at.text()),
        turn.act matches Act::Ask { request, .. } ==> match request {
            Request::Write { index, image, .. } => after.point is WriteAsked ==> {
                &&& tells(turn, crate::text::decimal(image@.len()))
                &&& tells(turn, crate::text::decimal(index as nat))
                &&& tells(turn, before.at.text())
            },
            Request::Bootstrap { index, .. } => after.point == (Point::BootstrapAsked { index }),
            Request::Reboot { index } => after.point == (Point::RebootAsked { index }),
            _ => true,
        },
        turn.act matches Act::Send { request, .. } ==> (request matches Request::Read { index, .. } ==> {
            &&& tells(turn, crate::text::decimal(index as nat))
            &&& tells(turn, before.plan.images.read->0@)
            &&& before.plan.target.size matches Some(limit) ==> tells(turn, crate::text::decimal(limit as nat))
        }),
        event matches Event::Saved(count) ==> {
            &&& tells(turn, crate::text::decimal(count as nat))
            &&& tells(turn, before.plan.images.read->0@)
        },
        event is Answered ==> match before.point {
            Point::BootstrapAsked { index } => tells(turn, crate::text::decimal(index as nat)),
            Point::RebootAsked { index } => tells(turn, crate::text::decimal(index as nat)),
            _ => true,
        },
{
    let at = before.at.text();
    if before.point is Start && event is Went {
        lemma_tells(turn, before.opening(), 0, "Talking to the dfu-remote daemon at "@, at, "."@);
    }
    if let Act::Ask { request: Request::Write { index, image, .. }, .. } = turn.act {
        if after.point is WriteAsked {
            let verify = if before.plan.actions@.contains(Action::Verify) {
                ", to be verified after writing"@
            } else {
                ""@
            };
            let alt = alt_words(before.plan.target.alt);
            let (count, number) = (crate::text::decimal(image@.len()), crate::text::decimal(index as nat));
            let line = sending_text(image@.len(), at, index as nat, alt, verify);
            let lines = seq![line];
            let (bytes, device) = (" bytes to "@, " for device "@);
            assert(line =~= "Sending "@ + count + (bytes + at + device + number + alt + verify + "."@));
            lemma_tells(turn, lines, 0, "Sending "@, count, bytes + at + device + number + alt + verify + "."@);
            assert(line =~= ("Sending "@ + count + bytes) + at + (device + number + alt + verify + "."@));
            lemma_tells(turn, lines, 0, "Sending "@ + count + bytes, at, device + number + alt + verify + "."@);
            assert(line =~= ("Sending "@ + count + bytes + at + device) + number + (alt + verify + "."@));
            lemma_tells(turn, lines, 0, "Sending "@ + count + bytes + at + device, number, alt + verify + "."@);
        }
    }
    if let Act::Send { request: Request::Read { index, .. }, .. } = turn.act {
        let lines = before.read_lines(index);
        let last = lines.len() - 1;
        let path = before.plan.images.read->0@;
        let number = crate::text::decimal(index as nat);
        let alt = alt_words(before.plan.target.alt);
        let line = lines[last];
        let (from, into) = (" from "@, " into "@);
        assert(line =~= "Reading device "@ + number + (alt + from + at + into + path + "."@));
        lemma_tells(turn, lines, last, "Reading device "@, number, alt + from + at + into + path + "."@);
        assert(line =~= ("Reading device "@ + number + alt + from + at + into) + path + "."@);
        lemma_tells(turn, lines, last, "Reading device "@ + number + alt + from + at + into, path, "."@);
        if let Some(limit) = before.plan.target.size {
            let cap = crate::text::decimal(limit as nat);
            let back = lines[0].skip(("--size "@ + cap).len() as int);
            assert(lines[0] =~= "--size "@ + cap + back);
            lemma_tells(turn, lines, 0, "--size "@, cap, back);
        }
    }
    if let Event::Saved(count) = event {
        let path = before.plan.images.read->0@;
        let number = crate::text::decimal(count as nat);
        let line = saved_text(count as nat, path);
        let (bytes, checked) = (" bytes to "@, " (CRC-32 checked)."@);
        assert(line =~= "Saved "@ + number + (bytes + path + checked));
        lemma_tells(turn, seq![line], 0, "Saved "@, number, bytes + path + checked);
        assert(line =~= ("Saved "@ + number + bytes) + path + checked);
        lemma_tells(turn, seq![line], 0, "Saved "@ + number + bytes, path, checked);
    }
    if event is Answered {
        match before.point {
            Point::BootstrapAsked { index } => {
                let number = crate::text::decimal(index as nat);
                let front = "The daemon has USB-booted device "@;
                let back = "; the DFU gadget is coming up."@;
                lemma_tells(turn, seq![booted_text(index as nat)], 0, front, number, back);
            },
            Point::RebootAsked { index } => {
                let number = crate::text::decimal(index as nat);
                let front = "Reboot triggered on device "@;
                lemma_tells(turn, seq![rebooted_text(index as nat)], 0, front, number, " (remote)."@);
            },
            _ => {},
        }
    }
}

/// A target that is half way into its boot has half a minute to settle, counted in lists that are a
/// sleep apart: no list is left out, and none is added.
pub proof fn law_a_target_has_half_a_minute(before: Session, event: Event, after: Session, turn: Turn)
    requires
        before.wf(),
        before.awaits(event),
        before.stepped(event, after, turn),
    ensures
        after.point matches Point::Settling(settle) ==> turn.act == Act::Sleep(500) && match before.point {
            Point::SettleAsked(was) => settle.left + 1 == was.left && settle.boot == was.boot && settle.anchor
                == was.anchor,
            _ => settle.left * 500 == 30_000,
        },
        after.point matches Point::SettleAsked(settle) ==> before.point == Point::Settling(settle) && event is Slept
            && (turn.act matches Act::Ask { request, .. } && request is Discover),
{
}

/// A list is printed as the daemon sent it, the newest that the run has: the one that just came, or
/// the one that a wait brought.
pub proof fn law_the_newest_list_is_printed(before: Session, event: Event, after: Session, turn: Turn)
    requires
        before.wf(),
        before.awaits(event),
        before.stepped(event, after, turn),
    ensures
        before.point is ListAsked ==> (event matches Event::Listed(Ok(devices)) ==> (turn.act matches Act::Print(text)
            && text@ == crate::remote::table::listing_text(before.at.text(), devices@))),
        before.point is Ready && event is Went && before.next < before.plan.actions.len()
            && before.plan.actions[before.next as int] is List ==> match before.devices {
            Some(devices) => turn.act matches Act::Print(text) && text@ == crate::remote::table::listing_text(
                before.at.text(),
                devices@,
            ),
            None => turn.act matches Act::Ask { request: Request::Discover, .. },
        },
        event matches Event::Listed(Ok(devices)) ==> after.devices == Some(devices),
        event matches Event::Listed(Err(_)) ==> turn.act matches Act::Finish(Err(_)),
        turn.act is Print ==> after.next == before.next,
{
}

} // verus!
