//! Executing a plan: what runs, in which class it fails, and what is said about it.
use vstd::prelude::*;
use vstd::string::*;

use crate::exit::OpClass;
use crate::images::{Blobs, Loaded};
use crate::list::Listing;
use crate::model::{AltSel, Answer, Detection, DfuAlt, DfuInfo, Error, FileError, Stage, Variant, copy_bytes};
use crate::plan::{Action, BootstrapTrigger, Plan, Remote, any_takes_an_alt};
use crate::render::{SCANNING, detection_advice};
use crate::target::{Discovered, Selected, UNREADABLE_PORT, find_gadget, select};
use crate::text::{push_decimal, quoted};
use crate::wait::{ARRIVED, POLL_INTERVAL, REENUM_ATTEMPTS, REENUM_INTERVAL, WAITING};

verus! {

/// An error, and what was running when it happened.
#[derive(Debug, Clone, PartialEq, Eq)]
pub struct Failure {
    /// What went wrong.
    pub error: Error,
    /// Which operation was running.
    pub class: OpClass,
    /// A wording that replaces the error's own.
    pub stated: Option<String>,
}

impl Failure {
    /// The exit code of this failure.
    pub open spec fn code(self) -> u8 {
        if crate::exit::is_a_file_error(self.error) {
            crate::exit::FILE
        } else {
            crate::exit::class_code(self.class)
        }
    }

    /// Pair an error with the operation that raised it.
    pub fn new(error: Error, class: OpClass) -> (failure: Self)
        ensures
            failure == (Failure { error, class, stated: None }),
    {
        Failure { error, class, stated: None }
    }

    /// A refusal in this tool's own words.
    pub fn refused(stated: String, class: OpClass) -> (failure: Self)
        ensures
            failure == (Failure { error: Error::Invalid(stated), class, stated: Some(stated) }),
    {
        let message = stated.clone();
        Failure { error: Error::Invalid(message), class, stated: Some(stated) }
    }

    /// A failure whose wording is this tool's and whose exit code comes from `error` and
    /// `class`.
    pub fn stating(error: Error, class: OpClass, stated: String) -> (failure: Self)
        ensures
            failure == (Failure { error, class, stated: Some(stated) }),
    {
        Failure { error, class, stated: Some(stated) }
    }

    /// The process exit code for this failure.
    pub fn exit_code(&self) -> (code: u8)
        ensures
            code == self.code(),
    {
        crate::exit::exit_code(&self.error, self.class)
    }

    /// What the operator reads. `own` is what the error says for itself.
    pub fn message(&self, own: &str) -> (message: String)
        ensures
            message@ == (match self.stated {
                Some(stated) => stated@,
                None => own@,
            }),
    {
        match &self.stated {
            Some(stated) => stated.clone(),
            None => own.to_owned(),
        }
    }
}

/// Which class an action fails in.
pub open spec fn class(action: Action) -> OpClass {
    if action.on_the_gadget() {
        OpClass::Transfer
    } else {
        OpClass::Device
    }
}

/// Which class an action fails in: whether any byte of flash may have moved.
///
/// It is the same locally and through a daemon.
pub fn class_of(action: &Action) -> (class: OpClass)
    ensures
        class == self::class(*action),
{
    match action {
        Action::List | Action::Diag | Action::Bootstrap(_) => OpClass::Device,
        Action::Erase | Action::Write | Action::Verify | Action::Read | Action::Reboot => OpClass::Transfer,
    }
}

/// What an action waits for in this build, where it waits for anything. Each is there.
pub fn not_implemented(action: &Action) -> (owner: Option<&'static str>)
    ensures
        owner is None,
{
    match action {
        Action::List
        | Action::Bootstrap(_)
        | Action::Erase
        | Action::Write
        | Action::Verify
        | Action::Read
        | Action::Reboot
        | Action::Diag => None,
    }
}

// ---------------------------------------------------------------------------
// What is said.
// ---------------------------------------------------------------------------
/// An action that this build has no arm for.
pub open spec fn unwired_text(flag: Seq<char>, owner: Seq<char>) -> Seq<char> {
    flag
        + " is not available in this build: "@
        + owner
        + " exists, but this frontend has no arm wired to it yet. Nothing was touched"@
}

fn unwired(flag: &str, owner: &str) -> (text: String)
    ensures
        text@ == unwired_text(flag@, owner@),
{
    let mut text = flag.to_owned();
    text.append(" is not available in this build: ");
    text.append(owner);
    text.append(" exists, but this frontend has no arm wired to it yet. Nothing was touched");
    text
}

/// A report that is being read.
pub open spec fn reading_efuse_text(index: nat) -> Seq<char> {
    "Reading the eFuse shadow of device "@
        + crate::text::decimal(index)
        + "."@
}

fn reading_efuse(index: u64) -> (text: String)
    ensures
        text@ == reading_efuse_text(index as nat),
{
    let mut text = "Reading the eFuse shadow of device ".to_owned();
    push_decimal(&mut text, index);
    text.append(".");
    text
}

/// A gadget that does not answer.
pub open spec fn no_probe_text(index: nat, words: Seq<char>) -> Seq<char> {
    "note: device "@
        + crate::text::decimal(index)
        + " would not answer a DFU probe: "@
        + words
}

fn no_probe(index: u64, words: &str) -> (text: String)
    ensures
        text@ == no_probe_text(index as nat, words@),
{
    let mut text = "note: device ".to_owned();
    push_decimal(&mut text, index);
    text.append(" would not answer a DFU probe: ");
    text.append(words);
    text
}

/// A device that needs no bootstrap.
pub open spec fn already_text(index: nat, what: Seq<char>) -> Seq<char> {
    "Device "@
        + crate::text::decimal(index)
        + " is already "@
        + what
        + "; nothing to bootstrap."@
}

fn already(index: u64, what: &str) -> (text: String)
    ensures
        text@ == already_text(index as nat, what@),
{
    let mut text = "Device ".to_owned();
    push_decimal(&mut text, index);
    text.append(" is already ");
    text.append(what);
    text.append("; nothing to bootstrap.");
    text
}

/// A device that cannot be bootstrapped.
pub open spec fn not_bootable_text(index: nat, what: Seq<char>, because: Seq<char>) -> Seq<char> {
    "device "@
        + crate::text::decimal(index)
        + " is "@
        + what
        + ", and only a device in the bootrom can be USB-booted"@
        + because
        + ". Power-cycle it into the bootrom and try again"@
}

fn not_bootable(index: u64, what: &str, because: &str) -> (text: String)
    ensures
        text@ == not_bootable_text(index as nat, what@, because@),
{
    let mut text = "device ".to_owned();
    push_decimal(&mut text, index);
    text.append(" is ");
    text.append(what);
    text.append(", and only a device in the bootrom can be USB-booted");
    text.append(because);
    text.append(". Power-cycle it into the bootrom and try again");
    text
}

/// A bootstrap that begins.
pub open spec fn bootstrapping_text(index: nat, source: Seq<char>) -> Seq<char> {
    "Bootstrapping device "@
        + crate::text::decimal(index)
        + " with "@
        + source
}

fn bootstrapping(index: u64, source: &str) -> (text: String)
    ensures
        text@ == bootstrapping_text(index as nat, source@),
{
    let mut text = "Bootstrapping device ".to_owned();
    push_decimal(&mut text, index);
    text.append(" with ");
    text.append(source);
    text
}

/// A gadget that came up.
pub open spec fn gadget_up_text(index: nat, before: nat) -> Seq<char> {
    "The U-Boot DFU gadget is up at index "@
        + crate::text::decimal(index)
        + " (was "@
        + crate::text::decimal(before)
        + ")."@
}

fn gadget_up(index: u64, before: u64) -> (text: String)
    ensures
        text@ == gadget_up_text(index as nat, before as nat),
{
    let mut text = "The U-Boot DFU gadget is up at index ".to_owned();
    push_decimal(&mut text, index);
    text.append(" (was ");
    push_decimal(&mut text, before);
    text.append(").");
    text
}

/// A gadget that did not come up.
pub open spec fn no_gadget_came_text(index: nat, seconds: nat) -> Seq<char> {
    "device "@
        + crate::text::decimal(index)
        + " was USB-booted, and no U-Boot DFU gadget came up on its port within "@
        + crate::text::decimal(seconds)
        + " s. Power-cycle it into the bootrom and try again"@
}

fn no_gadget_came(index: u64, seconds: u64) -> (text: String)
    ensures
        text@ == no_gadget_came_text(index as nat, seconds as nat),
{
    let mut text = "device ".to_owned();
    push_decimal(&mut text, index);
    text.append(" was USB-booted, and no U-Boot DFU gadget came up on its port within ");
    push_decimal(&mut text, seconds);
    text.append(" s. Power-cycle it into the bootrom and try again");
    text
}

/// A transfer without its gadget.
pub open spec fn not_the_gadget_text(index: nat, what: Seq<char>, remedy: Seq<char>) -> Seq<char> {
    "device "@
        + crate::text::decimal(index)
        + " is "@
        + what
        + ", and a transfer needs the U-Boot DFU gadget: "@
        + remedy
}

fn not_the_gadget(index: u64, what: &str, remedy: &str) -> (text: String)
    ensures
        text@ == not_the_gadget_text(index as nat, what@, remedy@),
{
    let mut text = "device ".to_owned();
    push_decimal(&mut text, index);
    text.append(" is ");
    text.append(what);
    text.append(", and a transfer needs the U-Boot DFU gadget: ");
    text.append(remedy);
    text
}

/// An operation without its file.
pub open spec fn fileless_text(flag: Seq<char>) -> Seq<char> {
    flag
        + " reached the device with no file behind it; cli::actions and images::preflight disagree"@
}

fn fileless(flag: &str) -> (text: String)
    ensures
        text@ == fileless_text(flag@),
{
    let mut text = flag.to_owned();
    text.append(" reached the device with no file behind it; cli::actions and images::preflight disagree");
    text
}

/// What is said where no gadget was opened.
pub const NO_TRANSPORT: &'static str = "a transfer ran without an open device; run::Session::prepare and run::Session::act disagree";

/// What is said where no alt-setting was resolved.
pub const NO_ALT: &'static str = "a transfer ran without a resolved alt; run::Session::prepare and plan::Action::takes_an_alt disagree";

/// What this build cannot do of a plan, decided before anything is touched.
pub fn unsupported(plan: &Plan) -> (refusal: Option<String>)
    ensures
        refusal is None,
{
    let mut at: usize = 0;
    while at < plan.actions.len()
        invariant
            at <= plan.actions.len(),
        decreases plan.actions.len() - at,
    {
        if let Some(owner) = not_implemented(&plan.actions[at]) {
            return Some(unwired(plan.actions[at].flag(), owner));
        }
        at += 1;
    }
    None
}

/// The failure of an operation. What this tool refuses is said in its own words.
pub open spec fn failure_of(error: Error, class: OpClass, failure: Failure) -> bool {
    match error {
        Error::Invalid(message) => failure == Failure { error, class, stated: Some(message) },
        _ => failure == Failure { error, class, stated: None },
    }
}

/// Pair an error with the operation that raised it, keeping this tool's wording.
///
/// What is refused is the state of the bench and not the operator's input, so it is said
/// without calling it that.
pub fn failed(error: Error, class: OpClass) -> (failure: Failure)
    ensures
        failure_of(error, class, failure),
{
    match error {
        Error::Invalid(message) => Failure::refused(message, class),
        other => Failure::new(other, class),
    }
}

/// What to do about a device that is not the gadget.
pub open spec fn remedy(stage: Option<Stage>) -> Seq<char> {
    if stage == Some(Stage::Bootrom) {
        "add -b to USB-boot it first; every transfer normally gets that automatically"@
    } else {
        "power-cycle it into the bootrom and run this again; the transfer will USB-boot it first"@
    }
}

/// What is said of a transfer whose target is not the gadget.
pub open spec fn no_gadget_words(device: Selected) -> Seq<char> {
    not_the_gadget_text(device.index as nat, crate::target::description(device.stage), remedy(device.stage))
}

/// A transfer whose target is not the gadget.
pub fn no_gadget(device: &Selected) -> (error: Error)
    ensures
        error matches Error::Invalid(message) && message@ == no_gadget_words(*device),
{
    let remedy = if device.is_bootrom() {
        "add -b to USB-boot it first; every transfer normally gets that automatically"
    } else {
        "power-cycle it into the bootrom and run this again; the transfer will USB-boot it first"
    };
    Error::Invalid(not_the_gadget(device.index as u64, device.describe(), remedy))
}

/// Is this the error of a detection that chose nothing?
pub open spec fn detection_refused(detection: Detection, error: Error) -> bool {
    match detection.answer {
        Answer::Ambiguous { regs, family, candidates } => error matches Error::Ambiguous {
            regs: read,
            candidates: listed,
        } && read == regs && crate::text::texts(listed@) == crate::text::texts(candidates@),
        Answer::Unknown { regs } => error == (Error::UnknownSoc { regs }),
        Answer::Resolved(_) => false,
    }
}

/// The loaders that a detection chose, or the error of one that chose nothing.
///
/// # Errors
/// What was read and what it may be, for a bug report to quote.
pub fn refuse_detection(detection: Detection) -> (variant: Result<Variant, Error>)
    ensures
        match detection.answer {
            Answer::Resolved(resolved) => variant == Ok::<Variant, Error>(resolved.variant),
            _ => variant matches Err(error) && detection_refused(detection, error),
        },
{
    match detection.answer {
        Answer::Resolved(resolved) => Ok(resolved.variant),
        Answer::Ambiguous { regs, family: _, candidates } => Err(Error::Ambiguous { regs, candidates }),
        Answer::Unknown { regs } => Err(Error::UnknownSoc { regs }),
    }
}

/// The name of the first alt-setting of this number, where it has one.
pub open spec fn name_of(alts: Seq<DfuAlt>, alt: u8) -> Option<Seq<char>>
    decreases alts.len(),
{
    if alts.len() == 0 {
        None
    } else if alts[0].alt == alt {
        if alts[0].name@.len() == 0 {
            None
        } else {
            Some(alts[0].name@)
        }
    } else {
        name_of(alts.drop_first(), alt)
    }
}

/// The name of the first alt-setting of this number, where it has one.
pub fn alt_name(alts: &Vec<DfuAlt>, alt: u8) -> (name: Option<&str>)
    ensures
        match name {
            Some(name) => name_of(alts@, alt) == Some(name@),
            None => name_of(alts@, alt) is None,
        },
{
    let mut at: usize = 0;
    assert(alts@.skip(0) =~= alts@);
    while at < alts.len()
        invariant
            at <= alts.len(),
            name_of(alts@, alt) == name_of(alts@.skip(at as int), alt),
        decreases alts.len() - at,
    {
        if alts[at].alt == alt {
            let name = alts[at].name.as_str();
            if name.is_empty() {
                return None;
            }
            return Some(name);
        }
        assert(alts@.skip(at as int).drop_first() =~= alts@.skip(at + 1));
        at += 1;
    }
    None
}

/// The line that says which alt-setting a transfer targets, with its name in quotes.
pub open spec fn targeting_text(alt: u8, quoted: Option<Seq<char>>) -> Seq<char> {
    match quoted {
        Some(name) => "Targeting alt "@ + crate::text::decimal(alt as nat) + " ("@ + name + ")."@,
        None => "Targeting alt "@ + crate::text::decimal(alt as nat) + "."@,
    }
}

/// The line that says which alt-setting a transfer targets, with its name in quotes.
pub fn targeting(alt: u8, quoted: Option<&str>) -> (line: String)
    ensures
        line@ == targeting_text(
            alt,
            match quoted {
                Some(name) => Some(name@),
                None => None,
            },
        ),
{
    let mut line = "Targeting alt ".to_owned();
    push_decimal(&mut line, alt as u64);
    match quoted {
        Some(name) => {
            line.append(" (");
            line.append(name);
            line.append(").");
        },
        None => line.append("."),
    }
    line
}

/// The name of the first alt-setting of this number, as it is quoted.
pub open spec fn quoted_name(alts: Seq<DfuAlt>, alt: u8) -> Option<Seq<char>> {
    match name_of(alts, alt) {
        Some(name) => Some(crate::text::quoted_text(name)),
        None => None,
    }
}

// ---------------------------------------------------------------------------
// The run.
// ---------------------------------------------------------------------------
/// Where a run stands.
#[derive(Debug, Clone, Copy, PartialEq, Eq, Structural)]
pub enum Point {
    /// Nothing was done.
    Start,
    /// `--wait`: the bus was looked at.
    WaitLooked {
        /// Whether the wait was announced.
        announced: bool,
    },
    /// `--wait`: there is nothing yet.
    WaitSleeping,
    /// The next action begins.
    Ready,
    /// The bus was looked at for the gadget.
    PrepareLooked,
    /// The gadget is being opened.
    PrepareOpened,
    /// The gadget is being asked for its alt-settings.
    PrepareProbed,
    /// The gadget is ready for the action.
    Prepared,
    /// `-l`: the bus is being scanned.
    Scanning,
    /// `-l`: the table is being printed.
    ListPrinting {
        /// Whether the target is a gadget, whose alt-settings come next.
        probe: bool,
    },
    /// `-l`: the bus was looked at for the gadget.
    AltsLooked,
    /// `-l`: the gadget is being opened.
    AltsOpened,
    /// `-l`: the gadget is being asked for its alt-settings.
    AltsProbed,
    /// `-l`: they are being printed.
    AltsPrinting,
    /// `-l`: it was said that the gadget would not answer.
    AltsNoted,
    /// `--diag`: the bus was looked at.
    DiagLooked,
    /// `--diag`: the device is being opened.
    DiagOpened,
    /// `--diag`: the report is being read.
    DiagReading,
    /// `--diag`: the report is being printed.
    DiagPrinting,
    /// What was printed is being flushed.
    Flushing,
    /// A bootstrap: the bus was looked at.
    BootLooked(BootstrapTrigger),
    /// A bootstrap: the device is being opened.
    BootOpened,
    /// A bootstrap: the device is being identified.
    BootDetecting,
    /// A bootstrap: it was said why the device cannot be identified.
    BootRefused,
    /// A bootstrap: its loaders are being read.
    BootLoading,
    /// A bootstrap: its loaders are being uploaded.
    BootUploading,
    /// A bootstrap: the bus is looked at for the gadget.
    BootAwaiting {
        /// How many looks are left, this one included.
        left: u32,
    },
    /// A bootstrap: the gadget is not there yet.
    BootSleeping {
        /// How many looks are left.
        left: u32,
    },
    /// A transfer is running.
    Moving,
    /// The run is over.
    Over,
}

/// What a run does next.
#[derive(Debug, PartialEq, Eq)]
pub enum Act {
    /// Go on.
    Proceed,
    /// Look at the bus.
    Enumerate,
    /// Look at the bus, and identify every bootrom on it.
    Scan,
    /// Open the device at this position of the bus.
    Open(usize),
    /// Read the eFuse report of the open device.
    Diagnose,
    /// Identify the open device.
    Detect,
    /// Read the loaders of this variant out of the tree.
    ReadLoaders(Variant),
    /// Upload these images to the open device.
    Upload {
        /// The stage-1 image.
        stage1: Vec<u8>,
        /// The U-Boot image.
        uboot: Vec<u8>,
    },
    /// Ask the open gadget for its alt-settings.
    Probe,
    /// Erase the flash.
    Erase,
    /// Write the image to this alt-setting.
    Write(u8),
    /// Compare this alt-setting with the image.
    Verify(u8),
    /// Read this alt-setting, or so many bytes of it.
    Read {
        /// The alt-setting.
        alt: u8,
        /// How many bytes at most.
        limit: Option<u64>,
    },
    /// Reboot the SoC.
    Reboot,
    /// Sleep for so many milliseconds.
    Sleep(u64),
    /// Print this text.
    Print(String),
    /// Flush what was printed.
    Flush,
    /// The run is over.
    Finish(Result<(), Failure>),
}

/// What a run says, and what it does then.
#[derive(Debug, PartialEq, Eq)]
pub struct Turn {
    /// The lines it says.
    pub say: Vec<String>,
    /// What it does.
    pub act: Act,
}

/// What came of what a run did.
#[derive(Debug, PartialEq, Eq)]
pub enum Event {
    /// It goes on.
    Went,
    /// What is on the bus.
    Bus(Vec<Discovered>),
    /// What is on the bus, identified.
    Scanned(Listing),
    /// The device is open.
    Opened,
    /// The report, in its own words.
    Reported(String),
    /// What the device is.
    Detected(Detection),
    /// The loaders.
    Loaders(Blobs),
    /// The upload is done.
    Uploaded,
    /// What the gadget offers.
    Probed(DfuInfo),
    /// The transfer is done.
    Moved,
    /// The sleep is over.
    Slept,
    /// The text was printed, or flushed.
    Printed,
    /// What the run said could not be written.
    Unsaid(FileError),
    /// It failed.
    Failed {
        /// Why.
        error: Error,
        /// The same, as the error words it.
        words: String,
    },
}

/// One local run.
#[derive(Debug, PartialEq, Eq)]
pub struct Session {
    /// What to do.
    pub plan: Plan,
    /// The files, read before the bus was touched.
    pub loaded: Loaded,
    /// The device that a bootstrap is working on.
    pub device: Option<Selected>,
    /// Why that device cannot be identified, until the run ends on it.
    pub refusal: Option<Error>,
    /// The gadget that a bootstrap produced, or that a transfer found.
    pub gadget: Option<Selected>,
    /// Whether the gadget is open.
    pub transport: bool,
    /// The alt-setting of every transfer of the run.
    pub alt: Option<u8>,
    /// How many actions are done.
    pub next: usize,
    /// Where it stands.
    pub point: Point,
}

/// Does a turn say these lines?
pub open spec fn says(turn: Turn, lines: Seq<Seq<char>>) -> bool {
    crate::text::texts(turn.say@) == lines
}

/// Does a turn end the run with this error, of an operation of this class?
pub open spec fn fails(turn: Turn, error: Error, class: OpClass) -> bool {
    turn.act matches Act::Finish(Err(failure)) && failure_of(error, class, failure)
}

/// Does a turn end the run with a refusal of this class?
pub open spec fn refuses(turn: Turn, class: OpClass, text: Seq<char>) -> bool {
    &&& turn.act matches Act::Finish(Err(failure))
    &&& failure.class == class
    &&& failure.error matches Error::Invalid(message)
    &&& message@ == text
    &&& failure.stated matches Some(stated)
    &&& stated@ == text
}

/// Does a turn do this, and say nothing?
pub open spec fn quietly(turn: Turn, act: Act) -> bool {
    says(turn, Seq::empty()) && turn.act == act
}

impl Session {
    /// Does any action of the plan target an alt-setting?
    pub open spec fn targets_an_alt(self) -> bool {
        exists|i: int| 0 <= i < self.plan.actions.len() && #[trigger] self.plan.actions[i].on_an_alt()
    }

    /// Is the gadget ready for every transfer of the plan?
    pub open spec fn is_prepared(self) -> bool {
        &&& self.transport
        &&& self.targets_an_alt() ==> self.alt is Some
    }

    /// The class of the action that is running.
    pub open spec fn class(self) -> OpClass {
        self::class(self.plan.actions[self.next as int])
    }

    /// The class that a failure here has: to get the gadget ready is no transfer yet.
    pub open spec fn class_here(self) -> OpClass {
        match self.point {
            Point::PrepareLooked => OpClass::Device,
            Point::PrepareOpened => OpClass::Device,
            Point::PrepareProbed => OpClass::Device,
            Point::Prepared => OpClass::Device,
            Point::WaitLooked { .. } => OpClass::Device,
            Point::WaitSleeping => OpClass::Device,
            Point::Start => OpClass::Device,
            Point::Ready => OpClass::Device,
            Point::Over => OpClass::Device,
            _ => self.class(),
        }
    }

    /// Is a bootstrap at work, and on a device in the bootrom?
    pub open spec fn is_booting(self) -> bool {
        &&& self.next < self.plan.actions.len()
        &&& self.device matches Some(device)
        &&& device.stage == Some(Stage::Bootrom)
    }

    /// Is the action that is running one that comes to this point?
    pub open spec fn is_on_its_way(self) -> bool {
        let action = self.plan.actions[self.next as int];
        match self.point {
            Point::Start => true,
            Point::WaitLooked { .. } => true,
            Point::WaitSleeping => true,
            Point::Ready => true,
            Point::Over => true,
            Point::PrepareLooked => action.on_the_gadget(),
            Point::PrepareOpened => action.on_the_gadget(),
            Point::PrepareProbed => action.on_the_gadget(),
            Point::Prepared => action.on_the_gadget(),
            Point::Moving => action.on_the_gadget(),
            Point::Flushing => action is List || action is Diag,
            Point::DiagLooked => action is Diag,
            Point::DiagOpened => action is Diag,
            Point::DiagReading => action is Diag,
            Point::DiagPrinting => action is Diag,
            Point::BootLooked(_) => action is Bootstrap,
            Point::BootOpened => action is Bootstrap,
            Point::BootDetecting => action is Bootstrap,
            Point::BootRefused => action is Bootstrap,
            Point::BootLoading => action is Bootstrap,
            Point::BootUploading => action is Bootstrap,
            Point::BootAwaiting { .. } => action is Bootstrap,
            Point::BootSleeping { .. } => action is Bootstrap,
            _ => action is List,
        }
    }

    /// Is what each point rests on there?
    pub open spec fn wf(self) -> bool {
        &&& self.next <= self.plan.actions.len()
        &&& self.is_on_its_way()
        &&& self.transport ==> (self.gadget matches Some(gadget) && gadget.stage == Some(Stage::Gadget))
        &&& match self.point {
            Point::Start => self.next == 0,
            Point::WaitLooked { .. } => self.next == 0,
            Point::WaitSleeping => self.next == 0,
            Point::Ready => true,
            Point::Over => true,
            Point::PrepareLooked => self.next < self.plan.actions.len() && !self.transport && self.gadget is None,
            Point::PrepareOpened => self.next < self.plan.actions.len() && (self.gadget matches Some(gadget)
                && gadget.stage == Some(Stage::Gadget)),
            Point::PrepareProbed => self.next < self.plan.actions.len() && self.transport && self.alt is None,
            Point::Prepared => self.next < self.plan.actions.len() && self.is_prepared(),
            Point::Moving => self.next < self.plan.actions.len() && self.is_prepared(),
            Point::BootOpened => self.is_booting(),
            Point::BootDetecting => self.is_booting(),
            Point::BootRefused => self.is_booting() && self.refusal is Some,
            Point::BootLoading => self.is_booting(),
            Point::BootUploading => self.is_booting(),
            Point::BootAwaiting { left } => self.is_booting() && 0 < left <= REENUM_ATTEMPTS,
            Point::BootSleeping { left } => self.is_booting() && 0 < left <= REENUM_ATTEMPTS,
            _ => self.next < self.plan.actions.len(),
        }
    }

    /// Is the run doing something that can fail?
    pub open spec fn can_fail(self) -> bool {
        match self.point {
            Point::Start => false,
            Point::Ready => false,
            Point::Prepared => false,
            Point::WaitSleeping => false,
            Point::BootSleeping { .. } => false,
            Point::AltsNoted => false,
            Point::BootRefused => false,
            Point::Over => false,
            _ => true,
        }
    }

    /// Is this what can come of what the run did?
    pub open spec fn awaits(self, event: Event) -> bool {
        match event {
            Event::Unsaid(_) => !(self.point is Over),
            Event::Failed { .. } => self.can_fail(),
            Event::Went => self.point is Start || self.point is Ready || self.point is Prepared || self.point
                is AltsNoted || self.point is BootRefused,
            Event::Bus(_) => self.point is WaitLooked || self.point is PrepareLooked || self.point is AltsLooked
                || self.point is DiagLooked || self.point is BootLooked || self.point is BootAwaiting,
            Event::Scanned(_) => self.point is Scanning,
            Event::Opened => self.point is PrepareOpened || self.point is AltsOpened || self.point is DiagOpened
                || self.point is BootOpened,
            Event::Reported(_) => self.point is DiagReading,
            Event::Detected(_) => self.point is BootDetecting,
            Event::Loaders(_) => self.point is BootLoading,
            Event::Uploaded => self.point is BootUploading,
            Event::Probed(_) => self.point is PrepareProbed || self.point is AltsProbed,
            Event::Moved => self.point is Moving,
            Event::Slept => self.point is WaitSleeping || self.point is BootSleeping,
            Event::Printed => self.point is ListPrinting || self.point is AltsPrinting || self.point is DiagPrinting
                || self.point is Flushing,
        }
    }

    /// This run with another point.
    pub open spec fn now_at(self, point: Point) -> Session {
        Session { point, ..self }
    }

    /// This run with one more action done.
    pub open spec fn one_done(self) -> Session {
        Session { point: Point::Ready, next: (self.next + 1) as usize, ..self }
    }

    /// A run of `plan`, with the files it needs.
    pub fn run(plan: Plan, loaded: Loaded) -> (session: Session)
        ensures
            session.wf(),
            is_fresh(session, plan, loaded),
            session == (Session {
                plan,
                loaded,
                device: None,
                refusal: None,
                gadget: None,
                transport: false,
                alt: None,
                next: 0,
                point: Point::Start,
            }),
    {
        Session {
            plan,
            loaded,
            device: None,
            refusal: None,
            gadget: None,
            transport: false,
            alt: None,
            next: 0,
            point: Point::Start,
        }
    }

    // -----------------------------------------------------------------
    // The pieces.
    // -----------------------------------------------------------------
    fn go(&mut self, point: Point, act: Act) -> (turn: Turn)
        ensures
            *final(self) == old(self).now_at(point),
            quietly(turn, act),
    {
        self.point = point;
        let turn = Turn { say: Vec::new(), act };
        assert(crate::text::texts(turn.say@) =~= Seq::empty());
        turn
    }

    fn saying(&mut self, point: Point, line: String, act: Act) -> (turn: Turn)
        ensures
            *final(self) == old(self).now_at(point),
            says(turn, seq![line@]),
            turn.act == act,
    {
        self.point = point;
        let ghost said = line@;
        let mut say: Vec<String> = Vec::new();
        say.push(line);
        assert(crate::text::texts(say@) =~= seq![said]);
        Turn { say, act }
    }

    fn finish(&mut self, error: Error, class: OpClass) -> (turn: Turn)
        ensures
            *final(self) == old(self).now_at(Point::Over),
            says(turn, Seq::empty()),
            fails(turn, error, class),
    {
        let failure = failed(error, class);
        self.go(Point::Over, Act::Finish(Err(failure)))
    }

    fn done(&mut self) -> (turn: Turn)
        requires
            old(self).next < old(self).plan.actions.len(),
        ensures
            *final(self) == old(self).one_done(),
            quietly(turn, Act::Proceed),
    {
        self.next += 1;
        self.go(Point::Ready, Act::Proceed)
    }

    fn running(&self) -> (class: OpClass)
        requires
            self.wf(),
        ensures
            class == self.class_here(),
    {
        match self.point {
            Point::PrepareLooked
            | Point::PrepareOpened
            | Point::PrepareProbed
            | Point::Prepared
            | Point::WaitLooked { .. }
            | Point::WaitSleeping
            | Point::Start
            | Point::Ready
            | Point::Over => OpClass::Device,
            _ => class_of(&self.plan.actions[self.next]),
        }
    }

    // -----------------------------------------------------------------
    // `--wait`.
    // -----------------------------------------------------------------
    /// How a run begins.
    pub open spec fn has_begun(self, after: Session, turn: Turn) -> bool {
        if self.plan.wait {
            after == self.now_at(Point::WaitLooked { announced: false }) && quietly(turn, Act::Enumerate)
        } else {
            after == self.now_at(Point::Ready) && quietly(turn, Act::Proceed)
        }
    }

    fn begin(&mut self) -> (turn: Turn)
        ensures
            old(self).has_begun(*final(self), turn),
    {
        if self.plan.wait {
            return self.go(Point::WaitLooked { announced: false }, Act::Enumerate);
        }
        self.go(Point::Ready, Act::Proceed)
    }

    /// How a wait goes on: for anything at all, which is what a bootstrap needs.
    pub open spec fn has_waited(self, announced: bool, bus: Seq<Discovered>, after: Session, turn: Turn) -> bool {
        if bus.len() > 0 {
            &&& after == self.now_at(Point::Ready)
            &&& turn.act is Proceed
            &&& says(turn, if announced {
                seq![ARRIVED@]
            } else {
                Seq::empty()
            })
        } else {
            &&& after == self.now_at(Point::WaitSleeping)
            &&& turn.act == Act::Sleep(POLL_INTERVAL)
            &&& says(turn, if announced {
                Seq::empty()
            } else {
                seq![WAITING@]
            })
        }
    }

    fn wait_for_device(&mut self, announced: bool, bus: &Vec<Discovered>) -> (turn: Turn)
        ensures
            old(self).has_waited(announced, bus@, *final(self), turn),
    {
        if bus.len() > 0 {
            if announced {
                return self.saying(Point::Ready, ARRIVED.to_owned(), Act::Proceed);
            }
            return self.go(Point::Ready, Act::Proceed);
        }
        if announced {
            return self.go(Point::WaitSleeping, Act::Sleep(POLL_INTERVAL));
        }
        self.saying(Point::WaitSleeping, WAITING.to_owned(), Act::Sleep(POLL_INTERVAL))
    }

    // -----------------------------------------------------------------
    // Getting the gadget ready.
    // -----------------------------------------------------------------
    /// How the next action begins, or the run ends.
    pub open spec fn has_advanced(self, after: Session, turn: Turn) -> bool {
        if self.next >= self.plan.actions.len() {
            after == self.now_at(Point::Over) && quietly(turn, Act::Finish(Ok(())))
        } else if self.plan.actions[self.next as int].on_the_gadget() {
            self.has_prepared(after, turn)
        } else {
            self.has_started(after, turn)
        }
    }

    /// What is left to do before a transfer.
    pub open spec fn has_prepared(self, after: Session, turn: Turn) -> bool {
        if self.transport {
            self.has_alt(after, turn)
        } else {
            match self.gadget {
                None => after == self.now_at(Point::PrepareLooked) && quietly(turn, Act::Enumerate),
                Some(gadget) => self.is_opening(gadget, after, turn),
            }
        }
    }

    /// How the device of a transfer is opened, where it is the gadget.
    pub open spec fn is_opening(self, gadget: Selected, after: Session, turn: Turn) -> bool {
        if gadget.stage == Some(Stage::Gadget) {
            after == self.now_at(Point::PrepareOpened) && quietly(turn, Act::Open(gadget.id))
        } else {
            &&& after == self.now_at(Point::Over)
            &&& says(turn, Seq::empty())
            &&& refuses(turn, OpClass::Device, no_gadget_words(gadget))
        }
    }

    /// How the alt-setting of the transfers is found, once, where any of them has one.
    pub open spec fn has_alt(self, after: Session, turn: Turn) -> bool {
        if self.alt is None && self.targets_an_alt() {
            after == self.now_at(Point::PrepareProbed) && quietly(turn, Act::Probe)
        } else {
            after == self.now_at(Point::Prepared) && quietly(turn, Act::Proceed)
        }
    }

    fn find_alt(&mut self) -> (turn: Turn)
        ensures
            old(self).has_alt(*final(self), turn),
    {
        if self.alt.is_none() && any_takes_an_alt(&self.plan.actions) {
            return self.go(Point::PrepareProbed, Act::Probe);
        }
        self.go(Point::Prepared, Act::Proceed)
    }

    /// Open the gadget, and find the alt-setting, each of them once.
    fn prepare(&mut self) -> (turn: Turn)
        ensures
            old(self).has_prepared(*final(self), turn),
    {
        if self.transport {
            return self.find_alt();
        }
        let (id, error) = match &self.gadget {
            None => return self.go(Point::PrepareLooked, Act::Enumerate),
            Some(gadget) => if gadget.is_gadget() {
                (gadget.id, None)
            } else {
                (gadget.id, Some(no_gadget(gadget)))
            },
        };
        match error {
            Some(error) => self.finish(error, OpClass::Device),
            None => self.go(Point::PrepareOpened, Act::Open(id)),
        }
    }

    /// What a look at the bus leads to, where the gadget was looked for.
    pub open spec fn gadget_looked_for(self, bus: Seq<Discovered>, after: Session, turn: Turn) -> bool {
        let index = self.plan.target.index;
        if index >= bus.len() {
            &&& after == self.now_at(Point::Over)
            &&& says(turn, Seq::empty())
            &&& refuses(turn, OpClass::Device, crate::target::no_such_index(index, bus.len()))
        } else {
            &&& after.gadget matches Some(gadget)
            &&& gadget.index == index
            &&& gadget.is_at(bus, index as int)
            &&& (Session { gadget: Some(gadget), ..self }).is_opening(gadget, after, turn)
        }
    }

    fn look_for_gadget(&mut self, bus: &Vec<Discovered>) -> (turn: Turn)
        requires
            !old(self).transport,
        ensures
            old(self).gadget_looked_for(bus@, *final(self), turn),
    {
        match select(bus, self.plan.target.index) {
            Err(error) => self.finish(error, OpClass::Device),
            Ok(device) => {
                let id = device.id;
                let error = if device.is_gadget() {
                    None
                } else {
                    Some(no_gadget(&device))
                };
                self.gadget = Some(device);
                match error {
                    Some(error) => self.finish(error, OpClass::Device),
                    None => self.go(Point::PrepareOpened, Act::Open(id)),
                }
            },
        }
    }

    /// What the alt-settings of the gadget lead to.
    pub open spec fn alt_resolved(self, info: DfuInfo, after: Session, turn: Turn) -> bool {
        match crate::alt::meant(info.alts@, self.plan.target.alt) {
            Some(alt) => {
                &&& after == (Session { alt: Some(alt), ..self }).now_at(Point::Prepared)
                &&& says(turn, seq![targeting_text(alt, quoted_name(info.alts@, alt))])
                &&& turn.act is Proceed
            },
            None => {
                &&& after == self.now_at(Point::Over)
                &&& says(turn, Seq::empty())
                &&& turn.act matches Act::Finish(Err(failure))
                &&& failure.class is Device
                &&& if self.plan.target.alt is Default {
                    failure.stated is None && (failure.error matches Error::MissingAlt(name) && name@
                        == crate::alt::FLASH@)
                } else {
                    refuses(
                        turn,
                        OpClass::Device,
                        crate::alt::missing_text(crate::alt::called(self.plan.target.alt), info.alts@),
                    )
                }
            },
        }
    }

    /// Apply the rules to what the gadget offers, and say which alt-setting that means.
    fn resolve_alt(&mut self, info: &DfuInfo) -> (turn: Turn)
        ensures
            old(self).alt_resolved(*info, *final(self), turn),
    {
        match crate::alt::resolve(info, &self.plan.target.alt) {
            Err(error) => self.finish(error, OpClass::Device),
            Ok(alt) => {
                let line = match alt_name(&info.alts, alt) {
                    Some(name) => {
                        let name = quoted(name);
                        targeting(alt, Some(name.as_str()))
                    },
                    None => targeting(alt, None),
                };
                self.alt = Some(alt);
                self.saying(Point::Prepared, line, Act::Proceed)
            },
        }
    }

    // -----------------------------------------------------------------
    // The actions.
    // -----------------------------------------------------------------
    /// How an action begins, with the gadget ready where it needs one.
    pub open spec fn has_started(self, after: Session, turn: Turn) -> bool {
        match self.plan.actions[self.next as int] {
            Action::List => after == self.now_at(Point::Scanning) && says(turn, seq![SCANNING@]) && turn.act is Scan,
            Action::Diag => after == self.now_at(Point::DiagLooked) && quietly(turn, Act::Enumerate),
            Action::Bootstrap(trigger) => after == self.now_at(Point::BootLooked(trigger)) && quietly(
                turn,
                Act::Enumerate,
            ),
            Action::Erase => self.has_moved(Act::Erase, after, turn),
            Action::Write => if self.transport && self.loaded.write is None {
                self.refused_here(fileless_text("-w"@), after, turn)
            } else {
                self.has_transferred(Act::Write(self.alt->0), after, turn)
            },
            Action::Verify => if self.transport && self.loaded.write is None {
                self.refused_here(fileless_text("--verify"@), after, turn)
            } else {
                self.has_transferred(Act::Verify(self.alt->0), after, turn)
            },
            Action::Read => if self.alt is None {
                self.refused_here(NO_ALT@, after, turn)
            } else if self.transport && !self.loaded.read {
                self.refused_here(fileless_text("-r"@), after, turn)
            } else {
                self.has_moved(Act::Read { alt: self.alt->0, limit: self.plan.target.size }, after, turn)
            },
            Action::Reboot => self.has_moved(Act::Reboot, after, turn),
        }
    }

    /// What is refused in the class of the action that is running.
    pub open spec fn refused_here(self, text: Seq<char>, after: Session, turn: Turn) -> bool {
        &&& after == self.now_at(Point::Over)
        &&& says(turn, Seq::empty())
        &&& refuses(turn, self.class(), text)
    }

    /// How a transfer that targets an alt-setting begins.
    pub open spec fn has_transferred(self, act: Act, after: Session, turn: Turn) -> bool {
        if self.transport && self.alt is None {
            self.refused_here(NO_ALT@, after, turn)
        } else {
            self.has_moved(act, after, turn)
        }
    }

    /// How a transfer begins.
    pub open spec fn has_moved(self, act: Act, after: Session, turn: Turn) -> bool {
        if !self.transport {
            self.refused_here(NO_TRANSPORT@, after, turn)
        } else {
            after == self.now_at(Point::Moving) && quietly(turn, act)
        }
    }

    fn refuse(&mut self, text: String) -> (turn: Turn)
        requires
            old(self).next < old(self).plan.actions.len(),
        ensures
            old(self).refused_here(text@, *final(self), turn),
    {
        let class = class_of(&self.plan.actions[self.next]);
        self.finish(Error::Invalid(text), class)
    }

    fn transfer(&mut self, act: Act) -> (turn: Turn)
        requires
            old(self).next < old(self).plan.actions.len(),
        ensures
            old(self).has_moved(act, *final(self), turn),
    {
        if !self.transport {
            return self.refuse(NO_TRANSPORT.to_owned());
        }
        self.go(Point::Moving, act)
    }

    /// Begin the action.
    fn act(&mut self) -> (turn: Turn)
        requires
            old(self).next < old(self).plan.actions.len(),
        ensures
            old(self).has_started(*final(self), turn),
    {
        match self.plan.actions[self.next] {
            Action::List => self.saying(Point::Scanning, SCANNING.to_owned(), Act::Scan),
            Action::Diag => self.go(Point::DiagLooked, Act::Enumerate),
            Action::Bootstrap(trigger) => self.go(Point::BootLooked(trigger), Act::Enumerate),
            Action::Erase => self.transfer(Act::Erase),
            Action::Write => {
                if self.transport && self.loaded.write.is_none() {
                    return self.refuse(fileless("-w"));
                }
                match self.alt {
                    Some(alt) => self.transfer(Act::Write(alt)),
                    None => {
                        if self.transport {
                            self.refuse(NO_ALT.to_owned())
                        } else {
                            self.refuse(NO_TRANSPORT.to_owned())
                        }
                    },
                }
            },
            Action::Verify => {
                if self.transport && self.loaded.write.is_none() {
                    return self.refuse(fileless("--verify"));
                }
                match self.alt {
                    Some(alt) => self.transfer(Act::Verify(alt)),
                    None => {
                        if self.transport {
                            self.refuse(NO_ALT.to_owned())
                        } else {
                            self.refuse(NO_TRANSPORT.to_owned())
                        }
                    },
                }
            },
            Action::Read => match self.alt {
                None => self.refuse(NO_ALT.to_owned()),
                Some(alt) => {
                    if self.transport && !self.loaded.read {
                        return self.refuse(fileless("-r"));
                    }
                    let limit = self.plan.target.size;
                    self.transfer(Act::Read { alt, limit })
                },
            },
            Action::Reboot => self.transfer(Act::Reboot),
        }
    }

    /// Begin the next action: get the gadget ready for it first, where it needs one.
    fn act_all(&mut self) -> (turn: Turn)
        requires
            old(self).wf(),
            old(self).point is Ready,
        ensures
            old(self).has_advanced(*final(self), turn),
    {
        if self.next >= self.plan.actions.len() {
            return self.go(Point::Over, Act::Finish(Ok(())));
        }
        if self.plan.actions[self.next].needs_the_gadget() {
            return self.prepare();
        }
        self.act()
    }

    // -----------------------------------------------------------------
    // `-l` and `--diag`.
    // -----------------------------------------------------------------
    /// Is the target of the plan a gadget, by this listing?
    pub open spec fn target_is_gadget(self, listing: Listing) -> bool {
        self.plan.target.index < listing.rows.len() && listing.rows[self.plan.target.index as int].stage == Some(
            Stage::Gadget,
        )
    }

    /// What a listing leads to.
    pub open spec fn was_scanned(self, listing: Listing, after: Session, turn: Turn) -> bool {
        &&& after == self.now_at(Point::ListPrinting { probe: self.target_is_gadget(listing) })
        &&& says(turn, Seq::empty())
        &&& turn.act matches Act::Print(text)
        &&& text@ == crate::render::listing_text(listing.rows@)
    }

    /// Print the table. The alt-settings of the target follow it, and only where it is a gadget:
    /// a probe can reset what it probes.
    fn list(&mut self, listing: &Listing) -> (turn: Turn)
        ensures
            old(self).was_scanned(*listing, *final(self), turn),
    {
        let mut text = String::new();
        crate::render::render(listing, &mut text);
        assert(text@ =~= crate::render::listing_text(listing.rows@));
        let index = self.plan.target.index as usize;
        let probe = index < listing.rows.len() && matches!(listing.rows[index].stage, Some(Stage::Gadget));
        self.go(Point::ListPrinting { probe }, Act::Print(text))
    }

    /// What a gadget that does not answer leads to: a note under a table that is right.
    pub open spec fn was_not_probed(self, words: Seq<char>, after: Session, turn: Turn) -> bool {
        &&& after == self.now_at(Point::AltsNoted)
        &&& says(turn, seq![no_probe_text(self.plan.target.index as nat, words)])
        &&& turn.act is Proceed
    }

    fn not_probed(&mut self, words: &str) -> (turn: Turn)
        ensures
            old(self).was_not_probed(words@, *final(self), turn),
    {
        let line = no_probe(self.plan.target.index as u64, words);
        self.saying(Point::AltsNoted, line, Act::Proceed)
    }

    /// What a look at the bus leads to, where the alt-settings of the target come next.
    pub open spec fn alts_looked_for(self, bus: Seq<Discovered>, after: Session, turn: Turn) -> bool {
        let index = self.plan.target.index;
        if index >= bus.len() {
            self.was_not_probed("invalid input: "@ + crate::target::no_such_index(index, bus.len()), after, turn)
        } else {
            after == self.now_at(Point::AltsOpened) && quietly(turn, Act::Open(index as usize))
        }
    }

    fn list_alts(&mut self, bus: &Vec<Discovered>) -> (turn: Turn)
        ensures
            old(self).alts_looked_for(bus@, *final(self), turn),
    {
        match select(bus, self.plan.target.index) {
            Ok(device) => self.go(Point::AltsOpened, Act::Open(device.id)),
            Err(error) => {
                let mut words = "invalid input: ".to_owned();
                if let Error::Invalid(message) = &error {
                    words.append(message.as_str());
                }
                self.not_probed(words.as_str())
            },
        }
    }

    /// The default among the alt-settings, where there is one.
    pub open spec fn alts_probed(self, info: DfuInfo, after: Session, turn: Turn) -> bool {
        &&& after == self.now_at(Point::AltsPrinting)
        &&& says(turn, Seq::empty())
        &&& turn.act matches Act::Print(text)
        &&& text@ == crate::render::alts_text(
            self.plan.target.index,
            info,
            crate::alt::meant(info.alts@, AltSel::Default),
        )
    }

    /// Print what the gadget offers, with the default marked.
    fn probe_and_render(&mut self, info: &DfuInfo) -> (turn: Turn)
        ensures
            old(self).alts_probed(*info, *final(self), turn),
    {
        let default_alt = match crate::alt::resolve(info, &AltSel::Default) {
            Ok(alt) => Some(alt),
            Err(_) => None,
        };
        let mut text = String::new();
        crate::render::alts(self.plan.target.index, info, default_alt, &mut text);
        assert(text@ =~= crate::render::alts_text(
            self.plan.target.index,
            *info,
            crate::alt::meant(info.alts@, AltSel::Default),
        ));
        self.go(Point::AltsPrinting, Act::Print(text))
    }

    /// What a look at the bus leads to, where a report comes next.
    pub open spec fn diag_looked_for(self, bus: Seq<Discovered>, after: Session, turn: Turn) -> bool {
        let index = self.plan.target.index;
        if index >= bus.len() {
            self.refused_here(crate::target::no_such_index(index, bus.len()), after, turn)
        } else {
            &&& after == self.now_at(Point::DiagOpened)
            &&& says(turn, seq![reading_efuse_text(index as nat)])
            &&& turn.act == Act::Open(index as usize)
        }
    }

    fn diag(&mut self, bus: &Vec<Discovered>) -> (turn: Turn)
        requires
            old(self).next < old(self).plan.actions.len(),
        ensures
            old(self).diag_looked_for(bus@, *final(self), turn),
    {
        let class = class_of(&self.plan.actions[self.next]);
        match select(bus, self.plan.target.index) {
            Err(error) => self.finish(error, class),
            Ok(device) => {
                let line = reading_efuse(device.index as u64);
                self.saying(Point::DiagOpened, line, Act::Open(device.id))
            },
        }
    }

    // -----------------------------------------------------------------
    // A bootstrap.
    // -----------------------------------------------------------------
    /// Why a bootstrap was there, in the words of its refusal.
    pub open spec fn because(trigger: BootstrapTrigger) -> Seq<char> {
        match trigger {
            BootstrapTrigger::Requested => ""@,
            BootstrapTrigger::Auto => ", which is what this transfer needs first"@,
        }
    }

    /// What a look at the bus leads to, where a bootstrap comes next.
    pub open spec fn boot_looked_for(
        self,
        trigger: BootstrapTrigger,
        bus: Seq<Discovered>,
        after: Session,
        turn: Turn,
    ) -> bool {
        let index = self.plan.target.index;
        if index >= bus.len() {
            self.refused_here(crate::target::no_such_index(index, bus.len()), after, turn)
        } else if bus[index as int].stage == Some(Stage::Gadget) {
            &&& after.gadget matches Some(gadget)
            &&& gadget.index == index
            &&& gadget.is_at(bus, index as int)
            &&& after == (Session { gadget: Some(gadget), ..self }).one_done()
            &&& says(
                turn,
                seq![already_text(index as nat, crate::target::description(Some(Stage::Gadget)))],
            )
            &&& turn.act is Proceed
        } else if bus[index as int].stage != Some(Stage::Bootrom) {
            self.refused_here(
                not_bootable_text(
                    index as nat,
                    crate::target::description(bus[index as int].stage),
                    Session::because(trigger),
                ),
                after,
                turn,
            )
        } else {
            &&& after.device matches Some(device)
            &&& device.index == index
            &&& device.is_at(bus, index as int)
            &&& after == (Session { device: Some(device), ..self }).now_at(Point::BootOpened)
            &&& quietly(turn, Act::Open(index as usize))
        }
    }

    /// Look at what a bootstrap would work on.
    ///
    /// A gadget needs none, and anything but a bootrom is refused, a device that cannot be told
    /// included.
    fn bootstrap(&mut self, trigger: BootstrapTrigger, bus: &Vec<Discovered>) -> (turn: Turn)
        requires
            old(self).next < old(self).plan.actions.len(),
        ensures
            old(self).boot_looked_for(trigger, bus@, *final(self), turn),
    {
        let class = class_of(&self.plan.actions[self.next]);
        let device = match select(bus, self.plan.target.index) {
            Err(error) => return self.finish(error, class),
            Ok(device) => device,
        };
        if device.is_gadget() {
            let line = already(device.index as u64, device.describe());
            self.gadget = Some(device);
            self.next += 1;
            return self.saying(Point::Ready, line, Act::Proceed);
        }
        if !device.is_bootrom() {
            let because = match trigger {
                BootstrapTrigger::Requested => "",
                BootstrapTrigger::Auto => ", which is what this transfer needs first",
            };
            let text = not_bootable(device.index as u64, device.describe(), because);
            return self.finish(Error::Invalid(text), class);
        }
        let id = device.id;
        self.device = Some(device);
        self.go(Point::BootOpened, Act::Open(id))
    }

    /// How the loaders of a bootstrap are found: the pair that was read, else the variant that
    /// was named, else the one that the device is.
    pub open spec fn loaders_chosen(self, after: Session, turn: Turn) -> bool {
        match self.loaded.loaders {
            Some(blobs) => self.has_uploaded(blobs, after, turn),
            None => match self.plan.target.cpu {
                Some(variant) => after == self.now_at(Point::BootLoading) && quietly(turn, Act::ReadLoaders(variant)),
                None => after == self.now_at(Point::BootDetecting) && quietly(turn, Act::Detect),
            },
        }
    }

    /// How an upload begins.
    pub open spec fn has_uploaded(self, blobs: Blobs, after: Session, turn: Turn) -> bool {
        &&& after == self.now_at(Point::BootUploading)
        &&& says(turn, seq![bootstrapping_text(self.device->0.index as nat, blobs.source@)])
        &&& turn.act matches Act::Upload { stage1, uboot }
        &&& stage1@ == blobs.stage1@
        &&& uboot@ == blobs.uboot@
    }

    fn upload(&mut self, stage1: Vec<u8>, uboot: Vec<u8>, source: &str) -> (turn: Turn)
        requires
            old(self).device is Some,
        ensures
            *final(self) == old(self).now_at(Point::BootUploading),
            says(turn, seq![bootstrapping_text(old(self).device->0.index as nat, source@)]),
            turn.act == (Act::Upload { stage1, uboot }),
    {
        let index: u8 = match &self.device {
            Some(device) => device.index,
            None => 0,
        };
        let line = bootstrapping(index as u64, source);
        self.saying(Point::BootUploading, line, Act::Upload { stage1, uboot })
    }

    fn loaders_for(&mut self) -> (turn: Turn)
        requires
            old(self).device is Some,
        ensures
            old(self).loaders_chosen(*final(self), turn),
    {
        let read = match &self.loaded.loaders {
            Some(blobs) => Some((copy_bytes(&blobs.stage1), copy_bytes(&blobs.uboot), blobs.source.clone())),
            None => None,
        };
        if let Some((stage1, uboot, source)) = read {
            return self.upload(stage1, uboot, source.as_str());
        }
        let forced = match &self.plan.target.cpu {
            Some(variant) => Some(Variant { loader_dir: variant.loader_dir.clone() }),
            None => None,
        };
        match forced {
            Some(variant) => self.go(Point::BootLoading, Act::ReadLoaders(variant)),
            None => self.go(Point::BootDetecting, Act::Detect),
        }
    }

    /// What a detection leads to: whatever qualifies it is said, whatever it chose.
    pub open spec fn was_detected(self, detection: Detection, after: Session, turn: Turn) -> bool {
        &&& says(turn, crate::render::advice(detection))
        &&& match detection.answer {
            Answer::Resolved(resolved) => after == self.now_at(Point::BootLoading) && turn.act == Act::ReadLoaders(
                resolved.variant,
            ),
            _ => {
                &&& after.refusal matches Some(error)
                &&& detection_refused(detection, error)
                &&& after == (Session { refusal: Some(error), point: Point::BootRefused, ..self })
                &&& turn.act is Proceed
            },
        }
    }

    fn detect_variant(&mut self, detection: Detection) -> (turn: Turn)
        ensures
            old(self).was_detected(detection, *final(self), turn),
    {
        let say = detection_advice(&detection);
        match refuse_detection(detection) {
            Ok(variant) => {
                self.point = Point::BootLoading;
                Turn { say, act: Act::ReadLoaders(variant) }
            },
            Err(error) => {
                self.refusal = Some(error);
                self.point = Point::BootRefused;
                Turn { say, act: Act::Proceed }
            },
        }
    }

    /// What a detection that chose nothing leads to, once it was said: the end of the run.
    pub open spec fn was_refused(self, after: Session, turn: Turn) -> bool {
        &&& after == (Session { refusal: None, point: Point::Over, ..self })
        &&& says(turn, Seq::empty())
        &&& fails(turn, self.refusal->0, self.class())
    }

    fn give_up(&mut self) -> (turn: Turn)
        requires
            old(self).next < old(self).plan.actions.len(),
            old(self).refusal is Some,
        ensures
            old(self).was_refused(*final(self), turn),
    {
        let class = class_of(&self.plan.actions[self.next]);
        match self.refusal.take() {
            Some(error) => self.finish(error, class),
            None => self.go(Point::Over, Act::Proceed),
        }
    }

    /// What an upload that is done leads to: nothing in it waits for the gadget.
    pub open spec fn was_uploaded(self, after: Session, turn: Turn) -> bool {
        if self.device->0.descriptors.port_path@.len() == 0 {
            self.refused_here(UNREADABLE_PORT@, after, turn)
        } else {
            after == self.now_at(Point::BootAwaiting { left: REENUM_ATTEMPTS }) && quietly(turn, Act::Enumerate)
        }
    }

    fn await_gadget(&mut self) -> (turn: Turn)
        requires
            old(self).is_booting(),
        ensures
            old(self).was_uploaded(*final(self), turn),
    {
        let unreadable = match &self.device {
            Some(device) => device.descriptors.port_path.len() == 0,
            None => true,
        };
        if unreadable {
            return self.refuse(UNREADABLE_PORT.to_owned());
        }
        self.go(Point::BootAwaiting { left: REENUM_ATTEMPTS }, Act::Enumerate)
    }

    /// What a look at the bus leads to, where the gadget of a bootstrap was looked for.
    pub open spec fn gadget_awaited(self, left: u32, bus: Seq<Discovered>, after: Session, turn: Turn) -> bool {
        let port_path = self.device->0.descriptors.port_path@;
        if port_path.len() == 0 {
            self.refused_here(UNREADABLE_PORT@, after, turn)
        } else if exists|i: int| crate::target::is_gadget_on(bus, i, port_path) {
            &&& after.gadget matches Some(gadget)
            &&& gadget.is_at(bus, gadget.id as int)
            &&& crate::target::is_gadget_on(bus, gadget.id as int, port_path)
            &&& forall|i: int| i < gadget.id ==> !crate::target::is_gadget_on(bus, i, port_path)
            &&& gadget.index == crate::target::addressable(gadget.id as int)
            &&& after == (Session { gadget: Some(gadget), ..self }).one_done()
            &&& says(turn, seq![gadget_up_text(gadget.index as nat, self.device->0.index as nat)])
            &&& turn.act is Proceed
        } else if left <= 1 {
            self.refused_here(
                no_gadget_came_text(self.device->0.index as nat, (REENUM_ATTEMPTS * REENUM_INTERVAL / 1000) as nat),
                after,
                turn,
            )
        } else {
            after == self.now_at(Point::BootSleeping { left: (left - 1) as u32 }) && quietly(
                turn,
                Act::Sleep(REENUM_INTERVAL),
            )
        }
    }

    /// Look for the gadget on the port of the device that was booted, as often as is worth it.
    fn wait_for_gadget(&mut self, left: u32, bus: &Vec<Discovered>) -> (turn: Turn)
        requires
            old(self).is_booting(),
            left > 0,
        ensures
            old(self).gadget_awaited(left, bus@, *final(self), turn),
    {
        let before: u8 = match &self.device {
            Some(device) => device.index,
            None => 0,
        };
        let port_path = match &self.device {
            Some(device) => copy_bytes(&device.descriptors.port_path),
            None => Vec::new(),
        };
        match find_gadget(bus, port_path.as_slice()) {
            Err(error) => {
                let class = class_of(&self.plan.actions[self.next]);
                self.finish(error, class)
            },
            Ok(Some(gadget)) => {
                let line = gadget_up(gadget.index as u64, before as u64);
                self.gadget = Some(gadget);
                self.next += 1;
                self.saying(Point::Ready, line, Act::Proceed)
            },
            Ok(None) => {
                if left == 1 {
                    let window: u64 = REENUM_ATTEMPTS as u64 * REENUM_INTERVAL / 1000;
                    return self.refuse(no_gadget_came(before as u64, window));
                }
                self.go(Point::BootSleeping { left: left - 1 }, Act::Sleep(REENUM_INTERVAL))
            },
        }
    }

    // -----------------------------------------------------------------
    // What came of it.
    // -----------------------------------------------------------------
    /// What a look at the bus leads to.
    pub open spec fn bus_seen(self, bus: Seq<Discovered>, after: Session, turn: Turn) -> bool {
        match self.point {
            Point::WaitLooked { announced } => self.has_waited(announced, bus, after, turn),
            Point::PrepareLooked => self.gadget_looked_for(bus, after, turn),
            Point::AltsLooked => self.alts_looked_for(bus, after, turn),
            Point::DiagLooked => self.diag_looked_for(bus, after, turn),
            Point::BootLooked(trigger) => self.boot_looked_for(trigger, bus, after, turn),
            Point::BootAwaiting { left } => self.gadget_awaited(left, bus, after, turn),
            _ => false,
        }
    }

    /// What a device that is open leads to.
    pub open spec fn was_opened(self, after: Session, turn: Turn) -> bool {
        match self.point {
            Point::PrepareOpened => (Session { transport: true, ..self }).has_alt(after, turn),
            Point::AltsOpened => after == self.now_at(Point::AltsProbed) && quietly(turn, Act::Probe),
            Point::DiagOpened => after == self.now_at(Point::DiagReading) && quietly(turn, Act::Diagnose),
            Point::BootOpened => self.loaders_chosen(after, turn),
            _ => false,
        }
    }

    fn opened(&mut self) -> (turn: Turn)
        requires
            old(self).wf(),
            old(self).awaits(Event::Opened),
        ensures
            old(self).was_opened(*final(self), turn),
    {
        match self.point {
            Point::PrepareOpened => {
                self.transport = true;
                self.find_alt()
            },
            Point::AltsOpened => self.go(Point::AltsProbed, Act::Probe),
            Point::DiagOpened => self.go(Point::DiagReading, Act::Diagnose),
            _ => self.loaders_for(),
        }
    }

    /// What a text that is printed leads to.
    pub open spec fn was_printed(self, after: Session, turn: Turn) -> bool {
        if self.point == (Point::ListPrinting { probe: true }) {
            after == self.now_at(Point::AltsLooked) && quietly(turn, Act::Enumerate)
        } else if self.point is Flushing {
            after == self.one_done() && quietly(turn, Act::Proceed)
        } else {
            after == self.now_at(Point::Flushing) && quietly(turn, Act::Flush)
        }
    }

    fn printed(&mut self) -> (turn: Turn)
        requires
            old(self).next < old(self).plan.actions.len(),
        ensures
            old(self).was_printed(*final(self), turn),
    {
        if matches!(self.point, Point::ListPrinting { probe: true }) {
            return self.go(Point::AltsLooked, Act::Enumerate);
        }
        if matches!(self.point, Point::Flushing) {
            return self.done();
        }
        self.go(Point::Flushing, Act::Flush)
    }

    /// What a failure leads to: a note where only the alt-settings of a listing were asked for,
    /// and else the end of the run.
    pub open spec fn has_failed(self, error: Error, words: Seq<char>, after: Session, turn: Turn) -> bool {
        match self.point {
            Point::AltsLooked => self.was_not_probed(words, after, turn),
            Point::AltsOpened => self.was_not_probed(words, after, turn),
            Point::AltsProbed => self.was_not_probed(words, after, turn),
            Point::AltsPrinting => self.was_not_probed(words, after, turn),
            Point::WaitLooked { .. } => {
                &&& after == self.now_at(Point::Over)
                &&& quietly(turn, Act::Finish(Err(Failure { error, class: OpClass::Device, stated: None })))
            },
            _ => {
                &&& after == self.now_at(Point::Over)
                &&& says(turn, Seq::empty())
                &&& fails(turn, error, self.class_here())
            },
        }
    }

    fn has_stopped(&mut self, error: Error, words: &str) -> (turn: Turn)
        requires
            old(self).wf(),
            old(self).can_fail(),
        ensures
            old(self).has_failed(error, words@, *final(self), turn),
    {
        match self.point {
            Point::AltsLooked | Point::AltsOpened | Point::AltsProbed | Point::AltsPrinting => self.not_probed(words),
            Point::WaitLooked { .. } => self.go(
                Point::Over,
                Act::Finish(Err(Failure::new(error, OpClass::Device))),
            ),
            _ => {
                let class = self.running();
                self.finish(error, class)
            },
        }
    }

    /// What comes of an event, wherever the run stands.
    pub open spec fn stepped(self, event: Event, after: Session, turn: Turn) -> bool {
        match event {
            Event::Went => match self.point {
                Point::Start => self.has_begun(after, turn),
                Point::Ready => self.has_advanced(after, turn),
                Point::AltsNoted => after == self.now_at(Point::Flushing) && quietly(turn, Act::Flush),
                Point::BootRefused => self.was_refused(after, turn),
                _ => self.has_started(after, turn),
            },
            Event::Bus(bus) => self.bus_seen(bus@, after, turn),
            Event::Scanned(listing) => self.was_scanned(listing, after, turn),
            Event::Opened => self.was_opened(after, turn),
            Event::Reported(report) => {
                &&& after == self.now_at(Point::DiagPrinting)
                &&& says(turn, Seq::empty())
                &&& turn.act matches Act::Print(text)
                &&& text@ == report@ + "\n"@
            },
            Event::Detected(detection) => self.was_detected(detection, after, turn),
            Event::Loaders(blobs) => self.has_uploaded(blobs, after, turn),
            Event::Uploaded => self.was_uploaded(after, turn),
            Event::Probed(info) => if self.point is PrepareProbed {
                self.alt_resolved(info, after, turn)
            } else {
                self.alts_probed(info, after, turn)
            },
            Event::Moved => after == self.one_done() && quietly(turn, Act::Proceed),
            Event::Slept => match self.point {
                Point::BootSleeping { left } => after == self.now_at(Point::BootAwaiting { left }) && quietly(
                    turn,
                    Act::Enumerate,
                ),
                _ => after == self.now_at(Point::WaitLooked { announced: true }) && quietly(turn, Act::Enumerate),
            },
            Event::Printed => self.was_printed(after, turn),
            Event::Unsaid(fault) => if self.point is AltsNoted {
                after == self.now_at(Point::Flushing) && quietly(turn, Act::Flush)
            } else {
                &&& after == self.now_at(Point::Over)
                &&& quietly(
                    turn,
                    Act::Finish(Err(Failure { error: Error::Io(fault), class: self.class_here(), stated: None })),
                )
            },
            Event::Failed { error, words } => self.has_failed(error, words@, after, turn),
        }
    }

    /// Take what came of what the run did, and say what it does next.
    pub fn step(&mut self, event: Event) -> (turn: Turn)
        requires
            old(self).wf(),
            old(self).awaits(event),
        ensures
            final(self).wf(),
            old(self).stepped(event, *final(self), turn),
    {
        match event {
            Event::Went => match self.point {
                Point::Start => self.begin(),
                Point::Ready => self.act_all(),
                Point::AltsNoted => self.go(Point::Flushing, Act::Flush),
                Point::BootRefused => self.give_up(),
                _ => self.act(),
            },
            Event::Bus(bus) => match self.point {
                Point::WaitLooked { announced } => self.wait_for_device(announced, &bus),
                Point::PrepareLooked => self.look_for_gadget(&bus),
                Point::AltsLooked => self.list_alts(&bus),
                Point::BootLooked(trigger) => self.bootstrap(trigger, &bus),
                Point::BootAwaiting { left } => self.wait_for_gadget(left, &bus),
                _ => self.diag(&bus),
            },
            Event::Scanned(listing) => self.list(&listing),
            Event::Opened => self.opened(),
            Event::Reported(report) => {
                let mut text = report;
                text.append("\n");
                self.go(Point::DiagPrinting, Act::Print(text))
            },
            Event::Detected(detection) => self.detect_variant(detection),
            Event::Loaders(blobs) => {
                let Blobs { stage1, uboot, source } = blobs;
                self.upload(stage1, uboot, source.as_str())
            },
            Event::Uploaded => self.await_gadget(),
            Event::Probed(info) => {
                if matches!(self.point, Point::PrepareProbed) {
                    self.resolve_alt(&info)
                } else {
                    self.probe_and_render(&info)
                }
            },
            Event::Moved => self.done(),
            Event::Slept => match self.point {
                Point::BootSleeping { left } => self.go(Point::BootAwaiting { left }, Act::Enumerate),
                _ => self.go(Point::WaitLooked { announced: true }, Act::Enumerate),
            },
            Event::Printed => self.printed(),
            Event::Unsaid(fault) => {
                if matches!(self.point, Point::AltsNoted) {
                    return self.go(Point::Flushing, Act::Flush);
                }
                let class = self.running();
                self.go(Point::Over, Act::Finish(Err(Failure::new(Error::Io(fault), class))))
            },
            Event::Failed { error, words } => self.has_stopped(error, words.as_str()),
        }
    }
}

/// How a run begins, once its files are read.
#[derive(Debug, PartialEq, Eq)]
pub enum Begun {
    /// It does not.
    Stopped(Failure),
    /// Against a daemon.
    Daemon(crate::remote::session::Session),
    /// On the bus of this machine.
    Bus(Session),
}

/// Begin a run, once what it needs of local files is known.
///
/// With `--host` the run is the daemon's, and the bus of this machine is not looked at. A file
/// that is missing stops either of them, before the bus and before the socket.
pub fn run(plan: Plan, loaded: Result<Loaded, Error>) -> (begun: Begun)
    ensures
        match loaded {
            Err(error) => begun == Begun::Stopped(Failure { error, class: OpClass::Device, stated: None }),
            Ok(loaded) => match plan.remote {
                Some(remote) => begun matches Begun::Daemon(session) && session
                    == (crate::remote::session::Session {
                    at: crate::remote::error::Address { host: remote.host, port: remote.port },
                    plan,
                    loaded,
                    devices: None,
                    chosen: crate::remote::session::Chosen::Operator,
                    next: 0,
                    point: crate::remote::session::Point::Start,
                }),
                None => begun matches Begun::Bus(session) && session == (Session {
                    plan,
                    loaded,
                    device: None,
                    refusal: None,
                    gadget: None,
                    transport: false,
                    alt: None,
                    next: 0,
                    point: Point::Start,
                }),
            },
        },
{
    let loaded = match loaded {
        Ok(loaded) => loaded,
        Err(error) => return Begun::Stopped(Failure::new(error, OpClass::Device)),
    };
    let remote = match &plan.remote {
        Some(remote) => Some(
            Remote {
                host: remote.host.clone(),
                port: remote.port,
                token: None,
            },
        ),
        None => None,
    };
    match remote {
        Some(remote) => Begun::Daemon(crate::remote::session::Session::run(&remote, plan, loaded)),
        None => Begun::Bus(Session::run(plan, loaded)),
    }
}

// ---------------------------------------------------------------------------
// What holds of a run.
// ---------------------------------------------------------------------------
/// Does this change the flash, or what is in a file, or what the device runs?
pub open spec fn is_transfer(act: Act) -> bool {
    act is Erase || act is Write || act is Verify || act is Read || act is Reboot
}

/// Is this the transfer that an action asks for?
pub open spec fn does(act: Act, action: Action) -> bool {
    match action {
        Action::Erase => act is Erase,
        Action::Write => act is Write,
        Action::Verify => act is Verify,
        Action::Read => act is Read,
        Action::Reboot => act is Reboot,
        _ => false,
    }
}

/// A run does what its plan says, in the order of the plan: the plan never changes, no action
/// is passed over and none is done twice, and a transfer that begins is the one that the plan
/// has next.
pub proof fn law_a_run_follows_its_plan(before: Session, event: Event, after: Session, turn: Turn)
    requires
        before.wf(),
        before.awaits(event),
        before.stepped(event, after, turn),
    ensures
        after.plan == before.plan,
        after.loaded == before.loaded,
        before.next <= after.next <= before.next + 1,
        is_transfer(turn.act) ==> after.next == before.next && does(
            turn.act,
            before.plan.actions[before.next as int],
        ),
{
}

/// A run that succeeds has done all of it: no success is reported with an action of the plan
/// left undone, and a run with nothing left succeeds.
pub proof fn law_success_means_all_of_it(before: Session, event: Event, after: Session, turn: Turn)
    requires
        before.wf(),
        before.awaits(event),
        before.stepped(event, after, turn),
    ensures
        turn.act matches Act::Finish(Ok(_)) ==> before.next == before.plan.actions.len(),
        before.point is Ready && event is Went && before.next == before.plan.actions.len() ==> quietly(
            turn,
            Act::Finish(Ok(())),
        ),
{
}

/// A transfer is done only when it is: an action that moves bytes is behind the run only after
/// the device said that they were moved.
pub proof fn law_a_transfer_is_done_when_it_moved(before: Session, event: Event, after: Session, turn: Turn)
    requires
        before.wf(),
        before.awaits(event),
        before.stepped(event, after, turn),
        before.point is Moving,
    ensures
        after.next == before.next + 1 <==> event is Moved,
        after.next != before.next + 1 ==> turn.act matches Act::Finish(Err(_)),
{
}

/// A refused `--alt` costs nothing: whatever moves a byte, an erase included, comes after the
/// gadget is open and, where any action of the plan targets an alt-setting, after that was
/// found.
pub proof fn law_a_refused_alt_costs_no_erase(before: Session, event: Event, after: Session, turn: Turn)
    requires
        before.wf(),
        before.awaits(event),
        before.stepped(event, after, turn),
        is_transfer(turn.act),
    ensures
        before.is_prepared(),
        after.is_prepared(),
        before.gadget matches Some(gadget) && gadget.stage == Some(Stage::Gadget),
{
}

/// Every transfer of a run has the same alt-setting: once found it is never asked for again,
/// and it is the one that is written, compared and read.
pub proof fn law_the_alt_is_found_once(before: Session, event: Event, after: Session, turn: Turn)
    requires
        before.wf(),
        before.awaits(event),
        before.stepped(event, after, turn),
        before.alt matches Some(_),
    ensures
        after.alt == before.alt,
        turn.act matches Act::Write(alt) ==> before.alt == Some(alt),
        turn.act matches Act::Verify(alt) ==> before.alt == Some(alt),
        turn.act matches Act::Read { alt, limit } ==> before.alt == Some(alt) && limit == before.plan.target.size,
        !(after.point is PrepareProbed),
{
}

/// Only a device in the bootrom is booted: loaders go to nothing else, and a device that cannot
/// be told is nothing else.
pub proof fn law_only_a_bootrom_is_uploaded_to(before: Session, event: Event, after: Session, turn: Turn)
    requires
        before.wf(),
        before.awaits(event),
        before.stepped(event, after, turn),
        turn.act is Upload,
    ensures
        before.device matches Some(device) && device.stage == Some(Stage::Bootrom),
        after.device == before.device,
{
}

/// What the operator says overrules what the device says: a device is identified only where
/// neither a pair of loaders nor a variant was given.
pub proof fn law_an_override_asks_no_device(before: Session, event: Event, after: Session, turn: Turn)
    requires
        before.wf(),
        before.awaits(event),
        before.stepped(event, after, turn),
        turn.act is Detect,
    ensures
        before.loaded.loaders is None,
        before.plan.target.cpu is None,
{
}

/// A bootstrap comes back with the gadget it created: whatever index it landed on, it is on the
/// port of the device that was booted.
pub proof fn law_a_bootstrap_keeps_its_port(before: Session, bus: Vec<Discovered>, after: Session, turn: Turn)
    requires
        before.wf(),
        before.point is BootAwaiting,
        before.stepped(Event::Bus(bus), after, turn),
        after.next == before.next + 1,
    ensures
        after.gadget matches Some(gadget) && gadget.stage == Some(Stage::Gadget) && gadget.descriptors.port_path@
            == before.device->0.descriptors.port_path@,
{
}

/// How many looks at the bus a wait for the gadget has left.
pub open spec fn looks_left(point: Point) -> int {
    match point {
        Point::BootAwaiting { left } => 2 * left,
        Point::BootSleeping { left } => 2 * left + 1,
        _ => 0,
    }
}

/// A wait for the gadget ends: each look and each sleep brings it nearer, whatever is on the
/// bus.
pub proof fn law_a_wait_for_the_gadget_ends(before: Session, event: Event, after: Session, turn: Turn)
    requires
        before.wf(),
        before.awaits(event),
        before.stepped(event, after, turn),
        before.point is BootAwaiting || before.point is BootSleeping,
    ensures
        0 <= looks_left(after.point) < looks_left(before.point),
{
}

/// A listing resets no bootrom: only where the target is a gadget, by the listing that was just
/// printed, is it asked for its alt-settings.
pub proof fn law_a_listing_probes_only_a_gadget(before: Session, event: Event, after: Session, turn: Turn)
    requires
        before.wf(),
        before.awaits(event),
        before.stepped(event, after, turn),
    ensures
        after.point is AltsLooked ==> before.point == (Point::ListPrinting { probe: true }),
        after.point == (Point::ListPrinting { probe: true }) ==> (event matches Event::Scanned(listing)
            && before.target_is_gadget(listing)),
{
}

/// A gadget that does not answer is no failure of a listing that is right.
pub proof fn law_an_unanswered_probe_is_a_note(before: Session, event: Event, after: Session, turn: Turn)
    requires
        before.wf(),
        before.awaits(event),
        before.stepped(event, after, turn),
        before.point is AltsLooked || before.point is AltsOpened || before.point is AltsProbed || before.point
            is AltsPrinting,
        event is Failed,
    ensures
        turn.act is Proceed,
        after.point is AltsNoted,
{
}

/// A failure has the class of what was running, and nothing is a transfer error before a
/// transfer: to find the gadget, to open it and to find its alt-setting are of the device.
pub proof fn law_a_failure_has_its_operations_class(before: Session, event: Event, after: Session, turn: Turn)
    requires
        before.wf(),
        before.awaits(event),
        before.stepped(event, after, turn),
        turn.act matches Act::Finish(Err(_)),
    ensures
        turn.act matches Act::Finish(Err(failure)) && if failure.class is Transfer {
            &&& before.is_prepared()
            &&& before.plan.actions[before.next as int].on_the_gadget()
        } else {
            failure.class is Device
        },
        before.point is Moving ==> (turn.act matches Act::Finish(Err(failure)) && failure.class == before.class()),
{
}

/// Does one description say what another does, field by field?
pub open spec fn describes(one: crate::model::DeviceDescriptors, other: crate::model::DeviceDescriptors) -> bool {
    &&& one.vendor_id == other.vendor_id
    &&& one.product_id == other.product_id
    &&& one.bus == other.bus
    &&& one.address == other.address
    &&& one.port_path@ == other.port_path@
}

/// The device that is opened is the one that was chosen. Fresh from a look at the bus it is the
/// one at the position that `-i` names; for a transfer it is the gadget that the run holds, at
/// the position it was found at, and it is a gadget; for a bootstrap it is in the bootrom.
pub proof fn law_the_chosen_device_is_opened(before: Session, event: Event, after: Session, turn: Turn, id: usize)
    requires
        before.wf(),
        before.awaits(event),
        before.stepped(event, after, turn),
        turn.act == Act::Open(id),
    ensures
        event matches Event::Bus(bus) ==> id == before.plan.target.index && id < bus.len(),
        !(event is Bus) ==> after.point is PrepareOpened && after.gadget == before.gadget,
        after.point is PrepareOpened <==> before.plan.actions[before.next as int].on_the_gadget(),
        after.point is PrepareOpened ==> (after.gadget matches Some(gadget) && gadget.id == id && gadget.stage == Some(
            Stage::Gadget,
        )),
        after.point is BootOpened ==> (after.device matches Some(device) && device.id == id && device.stage == Some(
            Stage::Bootrom,
        )),
        after.next == before.next,
{
}

/// The gadget that a run holds is on the bus where the run has it: at that position of the
/// listing it was picked from is a device with its descriptors and in its stage. It is the one
/// that `-i` names, or the gadget that a bootstrap made of that one, on the same port.
pub proof fn law_the_gadget_is_the_chosen_one(before: Session, event: Event, after: Session, turn: Turn)
    requires
        before.wf(),
        before.awaits(event),
        before.stepped(event, after, turn),
        after.gadget != before.gadget,
    ensures
        event matches Event::Bus(bus) && after.gadget matches Some(gadget) && {
            &&& gadget.id < bus.len()
            &&& describes(gadget.descriptors, bus[gadget.id as int].descriptors)
            &&& gadget.stage == bus[gadget.id as int].stage
            &&& if before.point is BootAwaiting {
                &&& gadget.stage == Some(Stage::Gadget)
                &&& before.device matches Some(device)
                &&& gadget.descriptors.port_path@ == device.descriptors.port_path@
                &&& device.descriptors.port_path@.len() > 0
            } else {
                gadget.id == before.plan.target.index
            }
        },
{
}

/// What a bootstrap works on is the device that `-i` names, and it is in the bootrom.
pub proof fn law_the_chosen_device_is_booted(before: Session, event: Event, after: Session, turn: Turn)
    requires
        before.wf(),
        before.awaits(event),
        before.stepped(event, after, turn),
        after.device != before.device,
    ensures
        event matches Event::Bus(bus) && after.device matches Some(device) && {
            &&& device.id == before.plan.target.index
            &&& device.id < bus.len()
            &&& describes(device.descriptors, bus[device.id as int].descriptors)
            &&& bus[device.id as int].stage == Some(Stage::Bootrom)
            &&& device.stage == Some(Stage::Bootrom)
            &&& turn.act == Act::Open(device.id)
        },
{
}

/// A bootstrap reads the loaders of the variant that was named, and where none was, of the
/// variant that the detection resolved to: of that one exactly, whatever the chip is called. A
/// detection that resolved to one always leads to its loaders.
pub proof fn law_the_variant_chooses_the_loaders(before: Session, event: Event, after: Session, turn: Turn)
    requires
        before.wf(),
        before.awaits(event),
        before.stepped(event, after, turn),
    ensures
        event matches Event::Detected(detection) ==> match detection.answer {
            Answer::Resolved(resolved) => turn.act == Act::ReadLoaders(resolved.variant),
            _ => turn.act is Proceed && after.point is BootRefused,
        },
        event is Detected ==> after.next == before.next,
        before.point is BootOpened && event is Opened && before.loaded.loaders is None ==> match before.plan.target.cpu {
            Some(variant) => turn.act == Act::ReadLoaders(variant),
            None => turn.act is Detect,
        },
        turn.act is ReadLoaders ==> event is Detected || (event is Opened && before.plan.target.cpu is Some),
{
}

/// What is uploaded is the pair that was read for it, each image in its own place: the one the
/// operator named, where one was named, and else the one out of the tree.
pub proof fn law_the_pair_that_was_read_is_uploaded(before: Session, event: Event, after: Session, turn: Turn)
    requires
        before.wf(),
        before.awaits(event),
        before.stepped(event, after, turn),
    ensures
        event matches Event::Loaders(blobs) ==> (turn.act matches Act::Upload { stage1, uboot } && stage1@
            == blobs.stage1@ && uboot@ == blobs.uboot@),
        before.point is BootOpened && event is Opened && before.loaded.loaders is Some ==> (
        before.loaded.loaders matches Some(blobs) && turn.act matches Act::Upload { stage1, uboot } && stage1@
            == blobs.stage1@ && uboot@ == blobs.uboot@),
        turn.act is Upload ==> event is Loaders || (event is Opened && before.loaded.loaders is Some),
        event is Uploaded && before.device->0.descriptors.port_path@.len() > 0 ==> turn.act is Enumerate
            && after.point is BootAwaiting,
{
}

/// An action is done only by what it was for: a transfer by its device saying so, a report by
/// being printed and flushed, and a bootstrap by a gadget that is there.
pub proof fn law_an_action_is_done_by_what_it_is_for(before: Session, event: Event, after: Session, turn: Turn)
    requires
        before.wf(),
        before.awaits(event),
        before.stepped(event, after, turn),
        after.next != before.next,
    ensures
        after.next == before.next + 1,
        match before.plan.actions[before.next as int] {
            Action::List | Action::Diag => before.point is Flushing && event is Printed,
            Action::Bootstrap(_) => {
                &&& event matches Event::Bus(bus)
                &&& after.gadget matches Some(gadget)
                &&& gadget.id < bus.len()
                &&& bus[gadget.id as int].stage == Some(Stage::Gadget)
            },
            _ => before.point is Moving && event is Moved,
        },
        turn.act is Proceed,
        after.point is Ready,
{
}

/// An action begins as what it is: a listing scans, a report and a bootstrap look at the bus
/// first, and each transfer moves what it is named for, on the alt-setting of the run.
pub proof fn law_an_action_begins_as_what_it_is(before: Session, event: Event, after: Session, turn: Turn)
    requires
        before.wf(),
        before.awaits(event),
        before.stepped(event, after, turn),
        event is Went,
        before.next < before.plan.actions.len(),
    ensures
        before.point is Ready ==> match before.plan.actions[before.next as int] {
            Action::List => turn.act is Scan,
            Action::Diag => turn.act is Enumerate && after.point is DiagLooked,
            Action::Bootstrap(trigger) => turn.act is Enumerate && after.point == Point::BootLooked(trigger),
            _ => !is_transfer(turn.act),
        },
        before.point is Prepared ==> match before.plan.actions[before.next as int] {
            Action::Erase => turn.act is Erase,
            Action::Write => before.loaded.write is Some ==> turn.act == Act::Write(before.alt->0),
            Action::Verify => before.loaded.write is Some ==> turn.act == Act::Verify(before.alt->0),
            Action::Read => before.loaded.read ==> turn.act == (Act::Read {
                alt: before.alt->0,
                limit: before.plan.target.size,
            }),
            _ => turn.act is Reboot,
        },
        before.point is Prepared && (before.plan.actions[before.next as int] is Write || before.plan.actions[before.next as int] is Verify)
            && before.loaded.write is None ==> turn.act matches Act::Finish(Err(_)),
        before.point is Prepared && before.plan.actions[before.next as int] is Read && !before.loaded.read ==> turn.act
            matches Act::Finish(Err(_)),
{
    if before.point is Prepared && before.plan.actions[before.next as int].on_an_alt() {
        assert(before.targets_an_alt());
    }
}

/// The alt-setting of a run is one that the gadget offers, and the one that was asked for: the
/// number that was given, or one of the name that was given, or the boot flash by its name, or
/// the only one there is.
pub proof fn law_the_alt_is_the_one_asked_for(before: Session, info: DfuInfo, after: Session, turn: Turn)
    requires
        before.wf(),
        before.point is PrepareProbed,
        before.stepped(Event::Probed(info), after, turn),
    ensures
        after.alt is Some <==> turn.act is Proceed,
        after.alt is None ==> turn.act matches Act::Finish(Err(_)),
        after.alt matches Some(alt) ==> crate::alt::is_asked_for(info.alts@, before.plan.target.alt, alt),
        before.plan.target.alt matches AltSel::Index(number) ==> ((exists|i: int|
            0 <= i < info.alts.len() && #[trigger] info.alts[i].alt == number) ==> after.alt == Some(number)),
        before.plan.target.alt matches AltSel::Name(name) ==> ((exists|i: int|
            0 <= i < info.alts.len() && #[trigger] info.alts[i].name@ == name@) ==> after.alt is Some),
{
    crate::alt::law_a_selection_means_what_it_says(info.alts@, before.plan.target.alt);
}

/// A wait lasts until something is there, and no longer; without `--wait` there is none.
pub proof fn law_a_wait_lasts_until_something_is_there(before: Session, event: Event, after: Session, turn: Turn)
    requires
        before.wf(),
        before.awaits(event),
        before.stepped(event, after, turn),
    ensures
        before.point is Start && event is Went ==> (if before.plan.wait {
            turn.act is Enumerate && after.point is WaitLooked
        } else {
            turn.act is Proceed && after.point is Ready
        }),
        before.point is WaitLooked && event is Bus ==> (event matches Event::Bus(bus) && if bus.len() > 0 {
            turn.act is Proceed && after.point is Ready
        } else {
            turn.act is Sleep && after.point is WaitSleeping
        }),
        before.point is WaitSleeping && event is Slept ==> turn.act is Enumerate && after.point is WaitLooked,
        after.next == before.next || !(before.point is WaitLooked || before.point is WaitSleeping || before.point
            is Start),
{
}

/// A failure ends the run with itself: what went wrong is what is reported. The one exception is
/// a gadget that a listing asks for its alt-settings.
pub proof fn law_a_failure_is_reported(before: Session, event: Event, after: Session, turn: Turn)
    requires
        before.wf(),
        before.awaits(event),
        before.stepped(event, after, turn),
    ensures
        event matches Event::Failed { error, words } ==> (!(before.point is AltsLooked || before.point is AltsOpened
            || before.point is AltsProbed || before.point is AltsPrinting) ==> (turn.act matches Act::Finish(
            Err(failure),
        ) && failure.error == error && after.point is Over)),
        event matches Event::Unsaid(fault) ==> (!(before.point is AltsNoted) ==> (turn.act matches Act::Finish(
            Err(failure),
        ) && failure.error == Error::Io(fault) && after.point is Over)),
        after.point is Over <==> turn.act is Finish,
        before.point is BootRefused && event is Went ==> (turn.act matches Act::Finish(Err(failure)) && Some(
            failure.error,
        ) == before.refusal),
{
}

/// A report is printed as it is, and a listing as a table, before they are done.
pub proof fn law_a_report_is_printed(before: Session, event: Event, after: Session, turn: Turn)
    requires
        before.wf(),
        before.awaits(event),
        before.stepped(event, after, turn),
    ensures
        event matches Event::Reported(report) ==> (turn.act matches Act::Print(text) && text@.len() == report@.len() + 1
            && text@.take(report@.len() as int) == report@ && text@.last() == '\n'),
        before.point is DiagOpened && event is Opened ==> turn.act is Diagnose,
        event matches Event::Scanned(listing) ==> (turn.act matches Act::Print(text) && text@
            == crate::render::listing_text(listing.rows@)),
        before.point is AltsOpened && event is Opened ==> turn.act is Probe,
        before.point is AltsProbed ==> (event matches Event::Probed(info) ==> (turn.act matches Act::Print(text) && text@
            == crate::render::alts_text(
            before.plan.target.index,
            info,
            crate::alt::meant(info.alts@, AltSel::Default),
        ))),
        before.point is Flushing ==> event is Printed || event is Failed || event is Unsaid,
        event is Printed && !(before.point is Flushing) ==> after.next == before.next && (turn.act is Flush
            || before.point == (Point::ListPrinting { probe: true })),
{
    reveal_strlit("\n");
    if let Event::Reported(report) = event {
        if let Act::Print(text) = turn.act {
            assert(text@.take(report@.len() as int) =~= report@);
        }
    }
}

// ---------------------------------------------------------------------------
// What holds of a run from its beginning.
// ---------------------------------------------------------------------------
/// One step of a run.
pub struct Step {
    /// The run before it.
    pub before: Session,
    /// What came of what the run did.
    pub event: Event,
    /// What the run does next.
    pub turn: Turn,
    /// The run after it.
    pub after: Session,
}

impl Step {
    /// Is this a step that a run takes?
    pub open spec fn is_taken(self) -> bool {
        &&& self.before.wf()
        &&& self.before.awaits(self.event)
        &&& self.before.stepped(self.event, self.after, self.turn)
        &&& self.after.wf()
    }
}

/// A run that has not begun.
pub open spec fn is_fresh(session: Session, plan: Plan, loaded: Loaded) -> bool {
    &&& session.plan == plan
    &&& session.loaded == loaded
    &&& session.device is None
    &&& session.gadget is None
    &&& !session.transport
    &&& session.alt is None
    &&& session.next == 0
    &&& session.point is Start
}

/// Are these the steps of a run of this plan, from its beginning?
pub open spec fn is_run(plan: Plan, loaded: Loaded, steps: Seq<Step>) -> bool
    decreases steps.len(),
{
    steps.len() > 0 ==> {
        &&& steps.last().is_taken()
        &&& is_run(plan, loaded, steps.drop_last())
        &&& if steps.len() == 1 {
            is_fresh(steps.last().before, plan, loaded)
        } else {
            steps.last().before == steps.drop_last().last().after
        }
    }
}

/// Does every action come after those that are documented to run before it?
pub open spec fn is_in_order(actions: Seq<Action>) -> bool {
    forall|i: int, j: int|
        0 <= i <= j < actions.len() ==> crate::plan::documented_place(#[trigger] actions[i])
            <= crate::plan::documented_place(#[trigger] actions[j])
}

/// The bus as it was last looked at.
pub open spec fn last_bus(steps: Seq<Step>) -> Option<Seq<Discovered>>
    decreases steps.len(),
{
    if steps.len() == 0 {
        None
    } else {
        match steps.last().event {
            Event::Bus(bus) => Some(bus@),
            _ => last_bus(steps.drop_last()),
        }
    }
}

/// The device that is open: the one that was last opened, on the bus as it was last looked at.
pub open spec fn open_device(steps: Seq<Step>) -> Option<Discovered>
    decreases steps.len(),
{
    if steps.len() == 0 {
        None
    } else {
        match steps.last().turn.act {
            Act::Open(id) => match last_bus(steps) {
                Some(bus) => if id < bus.len() {
                    Some(bus[id as int])
                } else {
                    None
                },
                None => None,
            },
            _ => open_device(steps.drop_last()),
        }
    }
}

/// Was the transfer of this action begun, and did its device then say that it is done?
pub open spec fn was_made(steps: Seq<Step>, at: int, action: Action) -> bool {
    exists|i: int|
        0 < i < steps.len() && #[trigger] steps[i].event is Moved && steps[i].before.next == at && does(
            steps[i - 1].turn.act,
            action,
        )
}

/// Is the gadget of a run one that the operator chose: the device of that number, or what a
/// bootstrap made of that device, on its port?
pub open spec fn holds_its_choice(session: Session) -> bool {
    session.gadget matches Some(gadget) ==> {
        ||| gadget.id == session.plan.target.index
        ||| session.device matches Some(device) && device.id == session.plan.target.index
            && gadget.descriptors.port_path@ == device.descriptors.port_path@
    }
}

/// Is the gadget of a run on the bus as it was last looked at?
pub open spec fn is_on_the_bus(session: Session, steps: Seq<Step>) -> bool {
    session.gadget matches Some(gadget) ==> {
        &&& last_bus(steps) matches Some(bus)
        &&& gadget.id < bus.len()
        &&& describes(gadget.descriptors, bus[gadget.id as int].descriptors)
        &&& gadget.stage == bus[gadget.id as int].stage
    }
}

/// Is the gadget of a run the device that is open?
pub open spec fn is_open(session: Session, steps: Seq<Step>) -> bool {
    &&& session.gadget matches Some(gadget)
    &&& open_device(steps) matches Some(device)
    &&& device.stage == Some(Stage::Gadget)
    &&& describes(gadget.descriptors, device.descriptors)
}

/// What a run has established, wherever it stands.
spec fn has_established(plan: Plan, loaded: Loaded, steps: Seq<Step>) -> bool {
    let session = steps.last().after;
    let quiet = session.point is Ready || session.point is PrepareLooked || session.point is PrepareOpened
        || session.point is PrepareProbed || session.point is Prepared || session.point is Moving;
    &&& session.plan == plan
    &&& session.loaded == loaded
    &&& !(session.point is Start)
    &&& session.point is WaitLooked || session.point is WaitSleeping ==> session.device is None && session.gadget is None
        && !session.transport
    &&& session.device matches Some(device) ==> device.id == plan.target.index
    &&& session.gadget is Some || session.device is Some ==> forall|i: int|
        session.next <= i < plan.actions.len() ==> (#[trigger] plan.actions[i] is Bootstrap
            || plan.actions[i].on_the_gadget())
    &&& session.transport ==> forall|i: int|
        session.next <= i < plan.actions.len() ==> (#[trigger] plan.actions[i]).on_the_gadget()
    &&& quiet ==> holds_its_choice(session)
    &&& (session.point is Ready || session.point is PrepareOpened) && !session.transport ==> is_on_the_bus(session, steps)
    &&& session.point is PrepareOpened || (session.transport && !(session.point is Over)) ==> is_open(session, steps)
    &&& session.point is Moving ==> {
        &&& steps.last().before.next == session.next
        &&& does(steps.last().turn.act, plan.actions[session.next as int])
    }
    &&& forall|at: int|
        0 <= at < session.next && #[trigger] plan.actions[at].on_the_gadget() ==> was_made(steps, at, plan.actions[at])
}

proof fn lemma_made_stays_made(steps: Seq<Step>, at: int, action: Action)
    requires
        steps.len() > 0,
        was_made(steps.drop_last(), at, action),
    ensures
        was_made(steps, at, action),
{
    let shorter = steps.drop_last();
    let i = choose|i: int|
        0 < i < shorter.len() && #[trigger] shorter[i].event is Moved && shorter[i].before.next == at && does(
            shorter[i - 1].turn.act,
            action,
        );
    assert(steps[i] == shorter[i] && steps[i - 1] == shorter[i - 1]);
    assert(steps[i].event is Moved);
}

#[verifier::rlimit(60)]
#[verifier::spinoff_prover]
proof fn lemma_established(plan: Plan, loaded: Loaded, steps: Seq<Step>)
    requires
        is_run(plan, loaded, steps),
        is_in_order(plan.actions@),
        steps.len() > 0,
    ensures
        has_established(plan, loaded, steps),
    decreases steps.len(),
{
    let step = steps.last();
    let shorter = steps.drop_last();
    if shorter.len() > 0 {
        lemma_established(plan, loaded, shorter);
    }
    let (before, after) = (step.before, step.after);
    law_a_run_follows_its_plan(before, step.event, after, step.turn);
    assert forall|i: int|
        before.next <= i < plan.actions.len() && before.next < plan.actions.len()
            && plan.actions[before.next as int].on_the_gadget() implies (#[trigger] plan.actions[i]).on_the_gadget() by {
        assert(crate::plan::documented_place(plan.actions@[before.next as int]) <= crate::plan::documented_place(
            plan.actions@[i],
        ));
    }
    assert forall|i: int|
        before.next <= i < plan.actions.len() && before.next < plan.actions.len()
            && plan.actions[before.next as int] is Bootstrap implies (#[trigger] plan.actions[i] is Bootstrap
        || plan.actions[i].on_the_gadget()) by {
        assert(crate::plan::documented_place(plan.actions@[before.next as int]) <= crate::plan::documented_place(
            plan.actions@[i],
        ));
    }
    assert forall|at: int| 0 <= at < after.next && #[trigger] plan.actions[at].on_the_gadget() implies was_made(
        steps,
        at,
        plan.actions[at],
    ) by {
        if at < before.next {
            lemma_made_stays_made(steps, at, plan.actions[at]);
        } else {
            law_an_action_is_done_by_what_it_is_for(before, step.event, after, step.turn);
            assert(before.point is Moving && step.event is Moved);
            let i = steps.len() - 1;
            assert(steps[i - 1] == shorter.last());
            assert(steps[i].event is Moved);
        }
    }
}

/// No transfer is taken for done that was not made: of every transfer that is behind a run, the
/// run has asked for that very transfer, and the device has said that it is done.
pub proof fn law_every_transfer_was_made(plan: Plan, loaded: Loaded, steps: Seq<Step>, at: int)
    requires
        is_run(plan, loaded, steps),
        is_in_order(plan.actions@),
        steps.len() > 0,
        0 <= at < steps.last().after.next,
        plan.actions[at].on_the_gadget(),
    ensures
        was_made(steps, at, plan.actions[at]),
{
    lemma_established(plan, loaded, steps);
}

/// A transfer runs on the camera that was chosen. When it begins, the device that is open is a
/// gadget; it is the gadget that the run holds, and that is the device of the number that was
/// given, or what a bootstrap made of that device, on the same port.
pub proof fn law_a_transfer_runs_on_the_chosen_gadget(plan: Plan, loaded: Loaded, steps: Seq<Step>)
    requires
        is_run(plan, loaded, steps),
        is_in_order(plan.actions@),
        steps.len() > 0,
        is_transfer(steps.last().turn.act),
    ensures
        open_device(steps) matches Some(open) && steps.last().after.gadget matches Some(gadget) && {
            &&& open.stage == Some(Stage::Gadget)
            &&& describes(gadget.descriptors, open.descriptors)
            &&& gadget.id == plan.target.index || (steps.last().after.device matches Some(device) && device.id
                == plan.target.index && gadget.descriptors.port_path@ == device.descriptors.port_path@)
        },
{
    lemma_established(plan, loaded, steps);
}

/// What a transfer moves is what was asked for: the alt-setting is the one of the run, and a read
/// stops where `--size` says.
pub proof fn law_a_transfer_moves_what_was_asked_for(before: Session, event: Event, after: Session, turn: Turn)
    requires
        before.wf(),
        before.awaits(event),
        before.stepped(event, after, turn),
    ensures
        turn.act matches Act::Write(alt) ==> before.alt == Some(alt) && before.loaded.write is Some && after.alt == before.alt,
        turn.act matches Act::Verify(alt) ==> before.alt == Some(alt) && before.loaded.write is Some && after.alt
            == before.alt,
        turn.act matches Act::Read { alt, limit } ==> before.alt == Some(alt) && limit == before.plan.target.size
            && before.loaded.read,
        is_transfer(turn.act) ==> event is Went && before.point is Prepared && after.point is Moving,
{
    if before.point is Prepared && before.plan.actions[before.next as int].on_an_alt() {
        assert(before.targets_an_alt());
    }
}

/// Whether a byte of flash may have moved decides the class: the reports and the bootstrap fail as
/// the device's, and everything on the gadget as the transfer's.
pub proof fn law_the_class_of_an_action(action: Action)
    ensures
        class(action) is Device <==> action is List || action is Diag || action is Bootstrap,
        class(action) is Transfer <==> action is Erase || action is Write || action is Verify || action is Read
            || action is Reboot,
{
}

/// The gadget is got ready before anything moves: it is looked for where the run has none, opened
/// where it has one, and asked for its alt-settings once it is open, where any action has one and
/// none was found yet. What is no gadget is refused, and nothing of it is opened.
pub proof fn law_the_gadget_is_got_ready(before: Session, event: Event, after: Session, turn: Turn)
    requires
        before.wf(),
        before.awaits(event),
        before.stepped(event, after, turn),
        before.next < before.plan.actions.len(),
        before.plan.actions[before.next as int].on_the_gadget(),
    ensures
        before.point is Ready && event is Went ==> (if before.transport {
            if before.alt is None && exists|i: int|
                0 <= i < before.plan.actions.len() && (#[trigger] before.plan.actions[i] is Write
                    || before.plan.actions[i] is Verify || before.plan.actions[i] is Read) {
                turn.act is Probe && after.point is PrepareProbed
            } else {
                turn.act is Proceed && after.point is Prepared
            }
        } else {
            match before.gadget {
                None => turn.act is Enumerate && after.point is PrepareLooked,
                Some(gadget) => if gadget.stage == Some(Stage::Gadget) {
                    turn.act == Act::Open(gadget.id)
                } else {
                    turn.act matches Act::Finish(Err(_))
                },
            }
        }),
        before.point is PrepareLooked ==> (event matches Event::Bus(bus) ==> (if before.plan.target.index < bus.len()
            && bus[before.plan.target.index as int].stage == Some(Stage::Gadget) {
            turn.act == Act::Open(before.plan.target.index as usize)
        } else {
            turn.act matches Act::Finish(Err(_))
        })),
        before.point is PrepareOpened && event is Opened ==> after.transport && (turn.act is Probe || turn.act is Proceed),
        !before.transport && after.transport ==> before.point is PrepareOpened && event is Opened,
{
    assert forall|i: int| 0 <= i < before.plan.actions.len() implies (#[trigger] before.plan.actions[i]).on_an_alt() == (
    before.plan.actions[i] is Write || before.plan.actions[i] is Verify || before.plan.actions[i] is Read) by {}
}

/// What is on the bus decides a bootstrap: a gadget needs none and is kept, a bootrom is opened,
/// and anything else is refused, a device that cannot be told and one that is not there included.
pub proof fn law_the_stage_decides_a_bootstrap(before: Session, bus: Vec<Discovered>, after: Session, turn: Turn)
    requires
        before.wf(),
        before.point is BootLooked,
        before.stepped(Event::Bus(bus), after, turn),
    ensures
        before.plan.target.index >= bus.len() ==> turn.act matches Act::Finish(Err(_)),
        before.plan.target.index < bus.len() ==> match bus[before.plan.target.index as int].stage {
            Some(Stage::Gadget) => turn.act is Proceed && after.next == before.next + 1 && (after.gadget
                matches Some(gadget) && gadget.id == before.plan.target.index),
            Some(Stage::Bootrom) => turn.act == Act::Open(before.plan.target.index as usize) && after.next == before.next,
            _ => turn.act matches Act::Finish(Err(_)),
        },
{
}

/// The gadget of a bootstrap is found as soon as it is there: on the port of the device that was
/// booted, and on no other. Until then the run sleeps and looks again, and it gives up in the end.
pub proof fn law_a_gadget_that_is_there_is_found(before: Session, bus: Vec<Discovered>, after: Session, turn: Turn)
    requires
        before.wf(),
        before.point is BootAwaiting,
        before.stepped(Event::Bus(bus), after, turn),
        before.device->0.descriptors.port_path@.len() > 0,
    ensures
        (exists|i: int|
            0 <= i < bus.len() && #[trigger] bus[i].stage == Some(Stage::Gadget) && bus[i].descriptors.port_path@
                == before.device->0.descriptors.port_path@) <==> after.next == before.next + 1,
        after.next == before.next ==> turn.act is Sleep || (turn.act matches Act::Finish(Err(_))),
        turn.act is Sleep <==> after.point is BootSleeping,
{
    let port_path = before.device->0.descriptors.port_path@;
    assert forall|i: int|
        0 <= i < bus.len() && #[trigger] bus[i].stage == Some(Stage::Gadget) && bus[i].descriptors.port_path@
            == port_path implies crate::target::is_gadget_on(bus@, i, port_path) by {}
    if exists|i: int| crate::target::is_gadget_on(bus@, i, port_path) {
        let i = choose|i: int| crate::target::is_gadget_on(bus@, i, port_path);
        assert(bus[i].stage == Some(Stage::Gadget));
    }
}

/// A detection that chose nothing is reported as what it read.
pub proof fn law_a_refused_detection_says_what_was_read(
    before: Session,
    detection: Detection,
    after: Session,
    turn: Turn,
)
    requires
        before.wf(),
        before.awaits(Event::Detected(detection)),
        before.stepped(Event::Detected(detection), after, turn),
    ensures
        match detection.answer {
            Answer::Unknown { regs } => after.refusal == Some(Error::UnknownSoc { regs }),
            Answer::Ambiguous { regs, candidates, .. } => after.refusal matches Some(
                Error::Ambiguous { regs: read, candidates: listed },
            ) && read == regs && listed.len() == candidates.len(),
            Answer::Resolved(_) => after.refusal == before.refusal,
        },
{
    if let Answer::Ambiguous { regs, candidates, .. } = detection.answer {
        if let Some(Error::Ambiguous { regs: _, candidates: listed }) = after.refusal {
            assert(crate::text::texts(listed@).len() == crate::text::texts(candidates@).len());
        }
    }
}

/// A listing goes on to the alt-settings exactly where the row that `-i` names is a gadget, and
/// what it opens for that is the device of that row's number.
pub proof fn law_a_listing_goes_on_where_the_target_is_a_gadget(
    before: Session,
    listing: Listing,
    after: Session,
    turn: Turn,
)
    requires
        before.wf(),
        before.point is Scanning,
        before.stepped(Event::Scanned(listing), after, turn),
    ensures
        turn.act is Print,
        after.next == before.next,
        after.point == (Point::ListPrinting {
            probe: before.plan.target.index < listing.rows.len() && listing.rows[before.plan.target.index as int].stage
                == Some(Stage::Gadget),
        }),
{
}

/// A transfer that fails is a transfer that failed: no other class is reported of it, and no exit
/// code says that it went well.
pub proof fn law_a_failed_transfer_is_reported_as_one(before: Session, event: Event, after: Session, turn: Turn)
    requires
        before.wf(),
        before.awaits(event),
        before.stepped(event, after, turn),
        before.point is Moving,
        !(event is Moved),
    ensures
        turn.act matches Act::Finish(Err(failure)) && failure.class is Transfer && failure.code() != 0 && after.next
            == before.next,
{
}

/// Is this part of what a turn says?
pub open spec fn tells(turn: Turn, part: Seq<char>) -> bool {
    exists|i: int| 0 <= i < turn.say.len() && crate::remote::wire::holds(#[trigger] turn.say[i]@, part)
}

proof fn lemma_tells(turn: Turn, line: Seq<char>, front: Seq<char>, part: Seq<char>, back: Seq<char>)
    requires
        says(turn, seq![line]),
        line == front + part + back,
    ensures
        tells(turn, part),
{
    assert(turn.say.len() == crate::text::texts(turn.say@).len());
    assert(turn.say[0]@ == crate::text::texts(turn.say@)[0]);
    crate::remote::wire::lemma_holds(front, part, back);
}

/// What a run says of a device or an alt-setting names the one it goes on with: the alt-setting of
/// the transfers, the gadget and the device it was before, and the target of a report or a note.
pub proof fn law_what_is_said_names_what_is_meant(before: Session, event: Event, after: Session, turn: Turn)
    requires
        before.wf(),
        before.awaits(event),
        before.stepped(event, after, turn),
    ensures
        after.alt != before.alt ==> after.alt is Some && tells(turn, crate::text::decimal(after.alt->0 as nat)),
        before.point is BootAwaiting && after.next == before.next + 1 ==> {
            &&& tells(turn, crate::text::decimal(after.gadget->0.index as nat))
            &&& tells(turn, crate::text::decimal(before.device->0.index as nat))
        },
        before.point is BootLooked && after.next == before.next + 1 ==> tells(
            turn,
            crate::text::decimal(before.plan.target.index as nat),
        ),
        turn.act is Upload ==> tells(turn, crate::text::decimal(before.device->0.index as nat)),
        event matches Event::Loaders(blobs) ==> tells(turn, blobs.source@),
        before.point is BootOpened && turn.act is Upload ==> tells(turn, before.loaded.loaders->0.source@),
        before.point is DiagLooked && turn.act is Open ==> tells(
            turn,
            crate::text::decimal(before.plan.target.index as nat),
        ),
        after.point is AltsNoted ==> tells(turn, crate::text::decimal(before.plan.target.index as nat)),
        after.point is AltsNoted ==> (event matches Event::Failed { words, .. } ==> tells(turn, words@)),
{
    let target = crate::text::decimal(before.plan.target.index as nat);
    if after.alt != before.alt {
        let alt = after.alt->0;
        let number = crate::text::decimal(alt as nat);
        let info = event->Probed_0;
        let quoted = quoted_name(info.alts@, alt);
        let line = targeting_text(alt, quoted);
        let back = match quoted {
            Some(name) => " ("@ + name + ")."@,
            None => "."@,
        };
        assert(line =~= "Targeting alt "@ + number + back);
        lemma_tells(turn, line, "Targeting alt "@, number, back);
    }
    if before.point is BootAwaiting && after.next == before.next + 1 {
        let one = crate::text::decimal(after.gadget->0.index as nat);
        let other = crate::text::decimal(before.device->0.index as nat);
        let line = gadget_up_text(after.gadget->0.index as nat, before.device->0.index as nat);
        let front = "The U-Boot DFU gadget is up at index "@;
        assert(line =~= front + one + (" (was "@ + other + ")."@));
        lemma_tells(turn, line, front, one, " (was "@ + other + ")."@);
        assert(line =~= (front + one + " (was "@) + other + ")."@);
        lemma_tells(turn, line, front + one + " (was "@, other, ")."@);
    }
    if before.point is BootLooked && after.next == before.next + 1 {
        let what = crate::target::description(Some(Stage::Gadget));
        let line = already_text(before.plan.target.index as nat, what);
        let back = " is already "@ + what + "; nothing to bootstrap."@;
        assert(line =~= "Device "@ + target + back);
        lemma_tells(turn, line, "Device "@, target, back);
    }
    if turn.act is Upload {
        let index = before.device->0.index as nat;
        let source = match event {
            Event::Loaders(blobs) => blobs.source@,
            _ => before.loaded.loaders->0.source@,
        };
        let line = bootstrapping_text(index, source);
        let number = crate::text::decimal(index);
        assert(line =~= "Bootstrapping device "@ + number + (" with "@ + source));
        lemma_tells(turn, line, "Bootstrapping device "@, number, " with "@ + source);
        assert(line =~= ("Bootstrapping device "@ + number + " with "@) + source + Seq::empty());
        lemma_tells(turn, line, "Bootstrapping device "@ + number + " with "@, source, Seq::empty());
    }
    if before.point is DiagLooked && turn.act is Open {
        let line = reading_efuse_text(before.plan.target.index as nat);
        lemma_tells(turn, line, "Reading the eFuse shadow of device "@, target, "."@);
    }
    if after.point is AltsNoted {
        let words = match event {
            Event::Failed { words, .. } => words@,
            Event::Bus(bus) => "invalid input: "@ + crate::target::no_such_index(before.plan.target.index, bus@.len()),
            _ => Seq::empty(),
        };
        let line = no_probe_text(before.plan.target.index as nat, words);
        let middle = " would not answer a DFU probe: "@;
        assert(line =~= "note: device "@ + target + (middle + words));
        lemma_tells(turn, line, "note: device "@, target, middle + words);
        assert(line =~= ("note: device "@ + target + middle) + words + Seq::empty());
        lemma_tells(turn, line, "note: device "@ + target + middle, words, Seq::empty());
    }
}

/// A gadget has half a minute to come up, counted in looks at the bus that are a sleep apart: no
/// look is left out, and none is added.
pub proof fn law_a_gadget_has_half_a_minute(before: Session, event: Event, after: Session, turn: Turn)
    requires
        before.wf(),
        before.awaits(event),
        before.stepped(event, after, turn),
    ensures
        after.point matches Point::BootAwaiting { left } ==> turn.act is Enumerate && match before.point {
            Point::BootSleeping { left: was } => left == was,
            _ => before.point is BootUploading && event is Uploaded && left * 250 == 30_000,
        },
        after.point matches Point::BootSleeping { left } ==> turn.act == Act::Sleep(250) && (before.point
            matches Point::BootAwaiting { left: was } && left + 1 == was),
        before.point matches Point::BootAwaiting { left } ==> (event is Bus && after.next == before.next && left > 1
            && before.device->0.descriptors.port_path@.len() > 0 ==> after.point is BootSleeping),
{
}

/// A device that cannot be identified ends the run, and with what its registers said.
pub proof fn law_a_refused_detection_ends_the_run(before: Session, event: Event, after: Session, turn: Turn)
    requires
        before.wf(),
        before.awaits(event),
        before.stepped(event, after, turn),
        before.point is BootRefused,
    ensures
        turn.act matches Act::Finish(Err(failure)) && failure.code() != 0 && (event is Went ==> Some(failure.error)
            == before.refusal && failure.class is Device),
        after.next == before.next,
{
}

/// Where more than one gadget is on the port of the device that was booted, the first of them in
/// the listing is taken, and `-i` would name it by its position.
pub proof fn law_the_first_gadget_on_the_port_is_taken(before: Session, bus: Vec<Discovered>, after: Session, turn: Turn)
    requires
        before.wf(),
        before.point is BootAwaiting,
        before.stepped(Event::Bus(bus), after, turn),
        after.next == before.next + 1,
    ensures
        after.gadget matches Some(gadget) && {
            &&& forall|i: int|
                0 <= i < gadget.id && #[trigger] bus[i].stage == Some(Stage::Gadget) ==> bus[i].descriptors.port_path@
                    != before.device->0.descriptors.port_path@
            &&& gadget.id < 256 ==> gadget.index == gadget.id
        },
{
    let port_path = before.device->0.descriptors.port_path@;
    if let Some(gadget) = after.gadget {
        assert forall|i: int| 0 <= i < gadget.id && #[trigger] bus[i].stage == Some(Stage::Gadget) implies bus[i].descriptors.port_path@
            != port_path by {
            assert(!crate::target::is_gadget_on(bus@, i, port_path));
        }
    }
}

} // verus!
