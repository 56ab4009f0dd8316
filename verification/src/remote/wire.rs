//! One conversation with a `dfu-remote` daemon: what each frame means, and what is said of
//! it.
//!
//! The socket is somebody else's. What is here decides what is read next, what a frame that
//! arrived means, when to give up on a peer, and how a streamed read reaches its file.
use vstd::prelude::*;
use vstd::string::*;

use crate::model::{IoKind, Phase, Progress};
use crate::remote::crc::{FRESH, feed};
use crate::remote::error::{Address, Attempt, RemoteError, connect_failed};
use crate::render::{Bar, sanitise};
use crate::text::{begins_with, decimal_of, lossy, push_decimal, push_hex, same_text, trim_end};

verus! {

/// How long one address gets to complete a TCP handshake, in milliseconds.
pub const CONNECT_TIMEOUT: u64 = 10_000;

/// How long the daemon has for its first answer, in milliseconds.
///
/// A command may take minutes with nothing on the socket; only the first answer says
/// whether the peer is a daemon at all.
pub const HANDSHAKE_TIMEOUT: u64 = 30_000;

/// How long a send may make no progress at all, in milliseconds.
pub const SEND_TIMEOUT: u64 = 300_000;

/// How long a quiet connection goes before it is probed, in milliseconds.
pub const KEEPALIVE_IDLE: u64 = 60_000;

/// How long between two probes, in milliseconds.
pub const KEEPALIVE_INTERVAL: u64 = 10_000;

/// How many unanswered probes end the connection.
pub const KEEPALIVE_PROBES: u32 = 6;

/// The most a log or progress frame may announce: it carries one line.
pub const MAX_INTERMEDIATE: u32 = 65_536;

/// How many log and progress frames one command may be answered with before its final frame.
pub const MAX_INTERMEDIATE_FRAMES: u64 = 1_048_576;

/// The most a read may announce: twice the largest part.
pub const MAX_READ: u64 = 536_870_912;

/// Bytes moved at a time while a read is streamed to its file.
pub const CHUNK: usize = 65_536;

/// The most that the payload of any other command or answer may hold.
pub const MAX_PAYLOAD: u32 = 67_108_864;

/// How long a frame's header is.
pub const HEADER_LEN: usize = 10;

/// The protocol version this client speaks.
pub const VERSION: u8 = 1;

/// What each refusal of a daemon's auth path begins with.
pub const AUTH_PREFIX: &'static str = "auth: ";

/// The name of the token handshake in a message.
pub const TOKEN_HANDSHAKE: &'static str = "the token handshake";

/// The kind of a response frame.
#[derive(Debug, Clone, Copy, PartialEq, Eq, Structural)]
pub enum Status {
    /// The command is done.
    Done,
    /// The command failed.
    Error,
    /// A counter.
    Progress,
    /// A line of text.
    Log,
    /// A kind this client has no name for.
    Other,
}

/// The head of a response frame.
#[derive(Debug, Clone, Copy, PartialEq, Eq, Structural)]
pub struct ResponseHeader {
    /// What kind of frame it is.
    pub status: Status,
    /// How many bytes follow.
    pub payload_len: u32,
}

/// Why ten bytes are not the head of a response frame.
#[derive(Debug, Clone, PartialEq, Eq)]
pub enum HeaderFault {
    /// They do not begin as one does.
    BadMagic,
    /// They are of another protocol version.
    VersionMismatch,
    /// They name a kind of frame that the protocol does not define.
    UnknownStatus,
    /// Anything else, in the protocol's own words.
    Other(String),
}

/// What a progress frame carries.
#[derive(Debug, Clone, PartialEq, Eq)]
pub struct ProgressBody {
    /// How far, in percent.
    pub percent: u8,
    /// Which phase, as a byte.
    pub stage: u8,
    /// In words.
    pub message: String,
}

/// Why a read stopped short of the bytes that were asked for.
#[derive(Debug, Clone, PartialEq, Eq)]
pub enum Stopped {
    /// Nothing arrived at all: the peer closed.
    Closed,
    /// Some arrived, and then the peer closed.
    Dropped {
        /// How far it got.
        got: usize,
        /// How much was due.
        want: usize,
    },
    /// The operating system refused.
    Failed {
        /// The kind of refusal.
        kind: IoKind,
        /// What it says.
        reason: String,
    },
}

/// What one call of a reader gave.
#[derive(Debug, Clone, PartialEq, Eq)]
pub enum Reading {
    /// So many bytes; none at the end of the stream.
    Bytes(usize),
    /// A failure.
    Failure {
        /// The kind of failure.
        kind: IoKind,
        /// What it says.
        reason: String,
    },
}

/// A part of a second behind its point, without the zeros at its end.
pub open spec fn fraction_text(millis: nat) -> Seq<char> {
    let (tenths, hundredths, thousandths) = (millis / 100, millis / 10 % 10, millis % 10);
    if millis == 0 {
        Seq::empty()
    } else if thousandths > 0 {
        "."@ + crate::text::decimal(tenths) + crate::text::decimal(hundredths) + crate::text::decimal(thousandths)
    } else if hundredths > 0 {
        "."@ + crate::text::decimal(tenths) + crate::text::decimal(hundredths)
    } else {
        "."@ + crate::text::decimal(tenths)
    }
}

/// A duration as `{:?}` writes it: in seconds from one second on, and in milliseconds below.
/// None at all is no nanoseconds.
pub open spec fn duration_text(millis: u64) -> Seq<char> {
    if millis == 0 {
        "0ns"@
    } else if millis < 1000 {
        crate::text::decimal(millis as nat) + "ms"@
    } else {
        crate::text::decimal((millis / 1000) as nat) + fraction_text((millis % 1000) as nat) + "s"@
    }
}

/// A duration of so many milliseconds, with its unit.
pub fn duration(millis: u64) -> (text: String)
    ensures
        text@ == duration_text(millis),
{
    if millis == 0 {
        return "0ns".to_owned();
    }
    let mut text = String::new();
    if millis < 1000 {
        push_decimal(&mut text, millis);
        assert(text@ =~= crate::text::decimal(millis as nat));
        text.append("ms");
        return text;
    }
    push_decimal(&mut text, millis / 1000);
    assert(text@ =~= crate::text::decimal((millis / 1000) as nat));
    let ghost whole = text@;
    let rest: u64 = millis % 1000;
    if rest > 0 {
        text.append(".");
        push_decimal(&mut text, rest / 100);
        if rest % 100 > 0 {
            push_decimal(&mut text, rest / 10 % 10);
        }
        if rest % 10 > 0 {
            push_decimal(&mut text, rest % 10);
        }
    }
    assert(text@ =~= whole + fraction_text(rest as nat));
    text.append("s");
    text
}

// ---------------------------------------------------------------------------
// Reading exactly so many bytes.
// ---------------------------------------------------------------------------
/// A buffer on its way to being full.
#[derive(Debug, Clone, Copy, PartialEq, Eq, Structural)]
pub struct Filling {
    /// How many bytes are in it.
    pub got: usize,
    /// How many it holds.
    pub want: usize,
}

/// Where a buffer stands after one call of the reader.
#[derive(Debug, Clone, PartialEq, Eq)]
pub enum Filled {
    /// More is due.
    More,
    /// It is full.
    Full,
    /// It will not be.
    Stopped(Stopped),
}

impl Filling {
    /// An empty buffer for `want` bytes.
    pub fn new(want: usize) -> (filling: Filling)
        ensures
            filling.got == 0 && filling.want == want,
    {
        Filling { got: 0, want }
    }

    /// Is nothing due any more?
    pub fn is_full(&self) -> (full: bool)
        ensures
            full == (self.got >= self.want),
    {
        self.got >= self.want
    }

    /// Take what one call of the reader gave, which was asked for what is still due.
    ///
    /// An interrupted call is no failure: the read may still succeed, so more is due. The
    /// end of the stream is told apart by whether anything arrived before it, and any other
    /// failure is reported and not retried.
    pub fn fill_from(&mut self, reading: Reading) -> (filled: Filled)
        requires
            old(self).got < old(self).want,
            reading matches Reading::Bytes(count) ==> count <= old(self).want - old(self).got,
        ensures
            final(self).want == old(self).want,
            match reading {
                Reading::Bytes(count) => {
                    &&& final(self).got == old(self).got + count
                    &&& if count > 0 {
                        filled == (if final(self).got == final(self).want {
                            Filled::Full
                        } else {
                            Filled::More
                        })
                    } else if old(self).got == 0 {
                        filled == Filled::Stopped(Stopped::Closed)
                    } else {
                        filled == Filled::Stopped(Stopped::Dropped { got: old(self).got, want: old(self).want })
                    }
                },
                Reading::Failure { kind, reason } => {
                    &&& final(self).got == old(self).got
                    &&& filled == (if kind is Interrupted {
                        Filled::More
                    } else {
                        Filled::Stopped(Stopped::Failed { kind, reason })
                    })
                },
            },
    {
        match reading {
            Reading::Bytes(count) => {
                if count == 0 {
                    if self.got == 0 {
                        return Filled::Stopped(Stopped::Closed);
                    }
                    return Filled::Stopped(Stopped::Dropped { got: self.got, want: self.want });
                }
                self.got += count;
                if self.got == self.want {
                    Filled::Full
                } else {
                    Filled::More
                }
            },
            Reading::Failure { kind, reason } => {
                if matches!(kind, IoKind::Interrupted) {
                    Filled::More
                } else {
                    Filled::Stopped(Stopped::Failed { kind, reason })
                }
            },
        }
    }
}

/// Did a deadline expire?
///
/// Platforms differ in which of two kinds they report it as.
pub open spec fn is_expiry(kind: IoKind) -> bool {
    kind is WouldBlock || kind is TimedOut
}

/// Did a deadline expire, rather than the call fail?
pub fn timed_out(kind: IoKind) -> (yes: bool)
    ensures
        yes == is_expiry(kind),
{
    matches!(kind, IoKind::WouldBlock | IoKind::TimedOut)
}

/// What a kind of frame is called in a sentence.
pub open spec fn status_word(status: Status) -> Seq<char> {
    match status {
        Status::Done => "ok"@,
        Status::Error => "error"@,
        Status::Progress => "progress"@,
        Status::Log => "log"@,
        Status::Other => "unrecognised"@,
    }
}

/// What a kind of frame is called in a sentence.
pub fn status_name(status: Status) -> (name: &'static str)
    ensures
        name@ == status_word(status),
{
    match status {
        Status::Done => "ok",
        Status::Error => "error",
        Status::Progress => "progress",
        Status::Log => "log",
        Status::Other => "unrecognised",
    }
}

// ---------------------------------------------------------------------------
// What is said.
// ---------------------------------------------------------------------------
/// A name that does not resolve.
pub open spec fn unresolved_text(at: Seq<char>, reason: Seq<char>) -> Seq<char> {
    "cannot resolve "@
        + at
        + ": "@
        + reason
        + ". Check the name, or give an address"@
}

fn unresolved(at: &str, reason: &str) -> (text: String)
    ensures
        text@ == unresolved_text(at@, reason@),
{
    let mut text = "cannot resolve ".to_owned();
    text.append(at);
    text.append(": ");
    text.append(reason);
    text.append(". Check the name, or give an address");
    text
}

/// A name that resolves to nothing.
pub open spec fn no_addresses_text(at: Seq<char>) -> Seq<char> {
    at
        + " resolved to no addresses at all: the name exists but has no address record"@
}

fn no_addresses(at: &str) -> (text: String)
    ensures
        text@ == no_addresses_text(at@),
{
    let mut text = at.to_owned();
    text.append(" resolved to no addresses at all: the name exists but has no address record");
    text
}

/// A token that the length field cannot carry.
pub open spec fn token_too_long_text(length: nat) -> Seq<char> {
    "--token is "@
        + crate::text::decimal(length)
        + " bytes; the handshake's length field is one byte, so 255 is the maximum"@
}

fn token_too_long(length: u64) -> (text: String)
    ensures
        text@ == token_too_long_text(length as nat),
{
    let mut text = "--token is ".to_owned();
    push_decimal(&mut text, length);
    text.append(" bytes; the handshake's length field is one byte, so 255 is the maximum");
    text
}

/// A token that was refused without a word.
pub open spec fn token_rejected_silently_text(at: Seq<char>) -> Seq<char> {
    "the daemon at "@
        + at
        + " rejected the token, and sent no reason"@
}

fn token_rejected_silently(at: &str) -> (text: String)
    ensures
        text@ == token_rejected_silently_text(at@),
{
    let mut text = "the daemon at ".to_owned();
    text.append(at);
    text.append(" rejected the token, and sent no reason");
    text
}

/// A handshake that was not read as one.
pub open spec fn token_not_read_text(at: Seq<char>, message: Seq<char>) -> Seq<char> {
    "the daemon at "@
        + at
        + " answered the token handshake with \""@
        + message
        + "\", which is not one of the two refusals its auth path can send: it read the handshake as a command header, so it was started without --token. Drop --token, or restart the daemon with one"@
}

fn token_not_read(at: &str, message: &str) -> (text: String)
    ensures
        text@ == token_not_read_text(at@, message@),
{
    let mut text = "the daemon at ".to_owned();
    text.append(at);
    text.append(" answered the token handshake with \"");
    text.append(message);
    text.append("\", which is not one of the two refusals its auth path can send: it read the handshake as a command header, so it was started without --token. Drop --token, or restart the daemon with one");
    text
}

/// A token that was refused.
pub open spec fn token_rejected_text(at: Seq<char>, message: Seq<char>) -> Seq<char> {
    "the daemon at "@
        + at
        + " rejected the token: "@
        + message
}

fn token_rejected(at: &str, message: &str) -> (text: String)
    ensures
        text@ == token_rejected_text(at@, message@),
{
    let mut text = "the daemon at ".to_owned();
    text.append(at);
    text.append(" rejected the token: ");
    text.append(message);
    text
}

/// A handshake whose answer is no answer.
pub open spec fn handshake_unanswered_text(at: Seq<char>, name: Seq<char>) -> Seq<char> {
    "the daemon at "@
        + at
        + " answered the token handshake with a "@
        + name
        + " frame instead of ok or error"@
}

fn handshake_unanswered(at: &str, name: &str) -> (text: String)
    ensures
        text@ == handshake_unanswered_text(at@, name@),
{
    let mut text = "the daemon at ".to_owned();
    text.append(at);
    text.append(" answered the token handshake with a ");
    text.append(name);
    text.append(" frame instead of ok or error");
    text
}

/// A request that has no spelling on the wire.
pub open spec fn unencodable_text(doing: Seq<char>, reason: Seq<char>) -> Seq<char> {
    "this client cannot put "@
        + doing
        + " on the wire: "@
        + reason
}

fn unencodable(doing: &str, reason: &str) -> (text: String)
    ensures
        text@ == unencodable_text(doing@, reason@),
{
    let mut text = "this client cannot put ".to_owned();
    text.append(doing);
    text.append(" on the wire: ");
    text.append(reason);
    text
}

/// A request that is too large for the wire.
pub open spec fn too_big_text(doing: Seq<char>, length: nat) -> Seq<char> {
    doing
        + " needs a "@
        + crate::text::decimal(length)
        + "-byte payload and the wire's cap is 67108864 bytes, so it cannot go through a daemon. Run this on the machine the camera is plugged into"@
}

fn too_big(doing: &str, length: u64) -> (text: String)
    ensures
        text@ == too_big_text(doing@, length as nat),
{
    let mut text = doing.to_owned();
    text.append(" needs a ");
    push_decimal(&mut text, length);
    text.append("-byte payload and the wire's cap is 67108864 bytes, so it cannot go through a daemon. Run this on the machine the camera is plugged into");
    text
}

/// An answer past the cap.
pub open spec fn oversize_answer_text(at: Seq<char>, doing: Seq<char>, length: nat) -> Seq<char> {
    "the daemon at "@
        + at
        + " answered "@
        + doing
        + " with "@
        + crate::text::decimal(length)
        + " bytes, past the 67108864-byte payload cap; only a read is streamed past it"@
}

fn oversize_answer(at: &str, doing: &str, length: u64) -> (text: String)
    ensures
        text@ == oversize_answer_text(at@, doing@, length as nat),
{
    let mut text = "the daemon at ".to_owned();
    text.append(at);
    text.append(" answered ");
    text.append(doing);
    text.append(" with ");
    push_decimal(&mut text, length);
    text.append(" bytes, past the 67108864-byte payload cap; only a read is streamed past it");
    text
}

/// A read larger than any part.
pub open spec fn absurd_read_text(at: Seq<char>, doing: Seq<char>, length: nat) -> Seq<char> {
    "the daemon at "@
        + at
        + " answered "@
        + doing
        + " with "@
        + crate::text::decimal(length)
        + " bytes, and the largest part this build knows of is 536870912 bytes: the connection has lost frame sync and this client will not write that to a file"@
}

fn absurd_read(at: &str, doing: &str, length: u64) -> (text: String)
    ensures
        text@ == absurd_read_text(at@, doing@, length as nat),
{
    let mut text = "the daemon at ".to_owned();
    text.append(at);
    text.append(" answered ");
    text.append(doing);
    text.append(" with ");
    push_decimal(&mut text, length);
    text.append(" bytes, and the largest part this build knows of is 536870912 bytes: the connection has lost frame sync and this client will not write that to a file");
    text
}

/// A read too short for its own check.
pub open spec fn no_room_for_crc_text(at: Seq<char>, doing: Seq<char>, length: nat) -> Seq<char> {
    "the daemon at "@
        + at
        + " answered "@
        + doing
        + " with "@
        + crate::text::decimal(length)
        + " bytes, which is shorter than the 4-byte CRC-32 that ends it"@
}

fn no_room_for_crc(at: &str, doing: &str, length: u64) -> (text: String)
    ensures
        text@ == no_room_for_crc_text(at@, doing@, length as nat),
{
    let mut text = "the daemon at ".to_owned();
    text.append(at);
    text.append(" answered ");
    text.append(doing);
    text.append(" with ");
    push_decimal(&mut text, length);
    text.append(" bytes, which is shorter than the 4-byte CRC-32 that ends it");
    text
}

/// A command that is never answered.
pub open spec fn endless_text(at: Seq<char>, count: nat, doing: Seq<char>) -> Seq<char> {
    "the daemon at "@
        + at
        + " has sent "@
        + crate::text::decimal(count)
        + " log and progress frames during "@
        + doing
        + " and no final answer; a command that never ends cannot be waited out, so this client is giving up on it"@
}

fn endless(at: &str, count: u64, doing: &str) -> (text: String)
    ensures
        text@ == endless_text(at@, count as nat, doing@),
{
    let mut text = "the daemon at ".to_owned();
    text.append(at);
    text.append(" has sent ");
    push_decimal(&mut text, count);
    text.append(" log and progress frames during ");
    text.append(doing);
    text.append(" and no final answer; a command that never ends cannot be waited out, so this client is giving up on it");
    text
}

/// A frame that is too large for a line of text.
pub open spec fn oversize_frame_text(at: Seq<char>, length: nat, doing: Seq<char>) -> Seq<char> {
    "the daemon at "@
        + at
        + " announced a "@
        + crate::text::decimal(length)
        + "-byte frame during "@
        + doing
        + ", where a line of text was due; the connection has lost frame sync and this client will not read past it"@
}

fn oversize_frame(at: &str, length: u64, doing: &str) -> (text: String)
    ensures
        text@ == oversize_frame_text(at@, length as nat, doing@),
{
    let mut text = "the daemon at ".to_owned();
    text.append(at);
    text.append(" announced a ");
    push_decimal(&mut text, length);
    text.append("-byte frame during ");
    text.append(doing);
    text.append(", where a line of text was due; the connection has lost frame sync and this client will not read past it");
    text
}

/// A progress frame whose body does not add up.
pub open spec fn unreadable_progress_text(at: Seq<char>, doing: Seq<char>, reason: Seq<char>) -> Seq<char> {
    "note: the daemon at "@
        + at
        + " sent a progress frame this client cannot read during "@
        + doing
        + " ("@
        + reason
        + "); the operation itself is unaffected"@
}

fn unreadable_progress(at: &str, doing: &str, reason: &str) -> (text: String)
    ensures
        text@ == unreadable_progress_text(at@, doing@, reason@),
{
    let mut text = "note: the daemon at ".to_owned();
    text.append(at);
    text.append(" sent a progress frame this client cannot read during ");
    text.append(doing);
    text.append(" (");
    text.append(reason);
    text.append("); the operation itself is unaffected");
    text
}

/// A frame that does not begin as one.
pub open spec fn not_a_daemon_text(at: Seq<char>, doing: Seq<char>) -> Seq<char> {
    at
        + " answered "@
        + doing
        + " with a frame that does not begin with the TDFU magic: that port is answering, but not as a dfu-remote daemon"@
}

fn not_a_daemon(at: &str, doing: &str) -> (text: String)
    ensures
        text@ == not_a_daemon_text(at@, doing@),
{
    let mut text = at.to_owned();
    text.append(" answered ");
    text.append(doing);
    text.append(" with a frame that does not begin with the TDFU magic: that port is answering, but not as a dfu-remote daemon");
    text
}

/// A daemon of another version.
pub open spec fn other_version_text(at: Seq<char>, version: nat) -> Seq<char> {
    "the daemon at "@
        + at
        + " speaks protocol version "@
        + crate::text::decimal(version)
        + "; this client speaks 1. The two are not interchangeable — update whichever is older"@
}

fn other_version(at: &str, version: u64) -> (text: String)
    ensures
        text@ == other_version_text(at@, version as nat),
{
    let mut text = "the daemon at ".to_owned();
    text.append(at);
    text.append(" speaks protocol version ");
    push_decimal(&mut text, version);
    text.append("; this client speaks 1. The two are not interchangeable — update whichever is older");
    text
}

/// A kind of frame that is not defined.
pub open spec fn undefined_kind_text(at: Seq<char>, doing: Seq<char>, kind: nat) -> Seq<char> {
    "the daemon at "@
        + at
        + " answered "@
        + doing
        + " with response kind "@
        + crate::text::decimal(kind)
        + ", which protocol version 1 does not define"@
}

fn undefined_kind(at: &str, doing: &str, kind: u64) -> (text: String)
    ensures
        text@ == undefined_kind_text(at@, doing@, kind as nat),
{
    let mut text = "the daemon at ".to_owned();
    text.append(at);
    text.append(" answered ");
    text.append(doing);
    text.append(" with response kind ");
    push_decimal(&mut text, kind);
    text.append(", which protocol version 1 does not define");
    text
}

/// A head that cannot be read.
pub open spec fn unreadable_frame_text(at: Seq<char>, doing: Seq<char>, reason: Seq<char>) -> Seq<char> {
    "the daemon at "@
        + at
        + " sent a frame this client cannot read during "@
        + doing
        + ": "@
        + reason
}

fn unreadable_frame(at: &str, doing: &str, reason: &str) -> (text: String)
    ensures
        text@ == unreadable_frame_text(at@, doing@, reason@),
{
    let mut text = "the daemon at ".to_owned();
    text.append(at);
    text.append(" sent a frame this client cannot read during ");
    text.append(doing);
    text.append(": ");
    text.append(reason);
    text
}

/// A daemon that wants a token and was sent none.
pub open spec fn token_required_text(at: Seq<char>, doing: Seq<char>, message: Seq<char>) -> Seq<char> {
    "the daemon at "@
        + at
        + " requires a token and none was sent: it read "@
        + doing
        + "'s command header as the handshake and answered \""@
        + message
        + "\". Pass --token with the secret the daemon was started with"@
}

fn token_required(at: &str, doing: &str, message: &str) -> (text: String)
    ensures
        text@ == token_required_text(at@, doing@, message@),
{
    let mut text = "the daemon at ".to_owned();
    text.append(at);
    text.append(" requires a token and none was sent: it read ");
    text.append(doing);
    text.append("'s command header as the handshake and answered \"");
    text.append(message);
    text.append("\". Pass --token with the secret the daemon was started with");
    text
}

/// A final frame that answers nothing.
pub open spec fn not_an_answer_text(at: Seq<char>, doing: Seq<char>, name: Seq<char>) -> Seq<char> {
    "the daemon at "@
        + at
        + " ended "@
        + doing
        + " with a "@
        + name
        + " frame, which is not an answer"@
}

fn not_an_answer(at: &str, doing: &str, name: &str) -> (text: String)
    ensures
        text@ == not_an_answer_text(at@, doing@, name@),
{
    let mut text = "the daemon at ".to_owned();
    text.append(at);
    text.append(" ended ");
    text.append(doing);
    text.append(" with a ");
    text.append(name);
    text.append(" frame, which is not an answer");
    text
}

/// A peer that closed.
pub open spec fn closed_text(at: Seq<char>, doing: Seq<char>) -> Seq<char> {
    "the daemon at "@
        + at
        + " closed the connection during "@
        + doing
}

fn closed(at: &str, doing: &str) -> (text: String)
    ensures
        text@ == closed_text(at@, doing@),
{
    let mut text = "the daemon at ".to_owned();
    text.append(at);
    text.append(" closed the connection during ");
    text.append(doing);
    text
}

/// A peer that closed part way.
pub open spec fn dropped_text(at: Seq<char>, got: nat, want: nat, doing: Seq<char>) -> Seq<char> {
    "the connection to "@
        + at
        + " dropped after "@
        + crate::text::decimal(got)
        + " of "@
        + crate::text::decimal(want)
        + " bytes during "@
        + doing
}

fn dropped(at: &str, got: u64, want: u64, doing: &str) -> (text: String)
    ensures
        text@ == dropped_text(at@, got as nat, want as nat, doing@),
{
    let mut text = "the connection to ".to_owned();
    text.append(at);
    text.append(" dropped after ");
    push_decimal(&mut text, got);
    text.append(" of ");
    push_decimal(&mut text, want);
    text.append(" bytes during ");
    text.append(doing);
    text
}

/// A peer that says nothing.
pub open spec fn silent_text(at: Seq<char>, deadline: Seq<char>, doing: Seq<char>) -> Seq<char> {
    at
        + " accepted the connection and then sent nothing for "@
        + deadline
        + " during "@
        + doing
        + ": that deadline covers the handshake and the first answer only, so something is listening on that port but it is not answering as a dfu-remote daemon"@
}

/// Word a daemon that was silent for as long as `deadline` says.
pub fn silent(at: &str, deadline: &str, doing: &str) -> (text: String)
    ensures
        text@ == silent_text(at@, deadline@, doing@),
{
    let mut text = at.to_owned();
    text.append(" accepted the connection and then sent nothing for ");
    text.append(deadline);
    text.append(" during ");
    text.append(doing);
    text.append(": that deadline covers the handshake and the first answer only, so something is listening on that port but it is not answering as a dfu-remote daemon");
    text
}

/// A read that the operating system refused.
pub open spec fn read_failed_text(at: Seq<char>, doing: Seq<char>, reason: Seq<char>) -> Seq<char> {
    "the connection to "@
        + at
        + " failed during "@
        + doing
        + ": "@
        + reason
}

fn read_failed(at: &str, doing: &str, reason: &str) -> (text: String)
    ensures
        text@ == read_failed_text(at@, doing@, reason@),
{
    let mut text = "the connection to ".to_owned();
    text.append(at);
    text.append(" failed during ");
    text.append(doing);
    text.append(": ");
    text.append(reason);
    text
}

/// A peer that reads nothing.
pub open spec fn stalled_text(at: Seq<char>, deadline: Seq<char>, doing: Seq<char>) -> Seq<char> {
    at
        + " accepted the connection and then read nothing for "@
        + deadline
        + " while this client was sending "@
        + doing
        + ": the daemon serves one client at a time, so it is probably busy with another run"@
}

/// Word a daemon that took nothing for as long as `deadline` says.
pub fn stalled(at: &str, deadline: &str, doing: &str) -> (text: String)
    ensures
        text@ == stalled_text(at@, deadline@, doing@),
{
    let mut text = at.to_owned();
    text.append(" accepted the connection and then read nothing for ");
    text.append(deadline);
    text.append(" while this client was sending ");
    text.append(doing);
    text.append(": the daemon serves one client at a time, so it is probably busy with another run");
    text
}

/// A send that the operating system refused.
pub open spec fn send_refused_text(at: Seq<char>, doing: Seq<char>, reason: Seq<char>) -> Seq<char> {
    "the connection to "@
        + at
        + " failed while sending "@
        + doing
        + ": "@
        + reason
}

fn send_refused(at: &str, doing: &str, reason: &str) -> (text: String)
    ensures
        text@ == send_refused_text(at@, doing@, reason@),
{
    let mut text = "the connection to ".to_owned();
    text.append(at);
    text.append(" failed while sending ");
    text.append(doing);
    text.append(": ");
    text.append(reason);
    text
}

/// A file that holds part of a read.
pub open spec fn short_text(message: Seq<char>, path: Seq<char>, written: nat) -> Seq<char> {
    message
        + "; "@
        + path
        + " holds the "@
        + crate::text::decimal(written)
        + " bytes that arrived and is short"@
}

fn short(message: &str, path: &str, written: u64) -> (text: String)
    ensures
        text@ == short_text(message@, path@, written as nat),
{
    let mut text = message.to_owned();
    text.append("; ");
    text.append(path);
    text.append(" holds the ");
    push_decimal(&mut text, written);
    text.append(" bytes that arrived and is short");
    text
}

/// A file whose check never arrived.
pub open spec fn unchecked_text(message: Seq<char>, path: Seq<char>, written: nat) -> Seq<char> {
    message
        + "; "@
        + path
        + " holds the "@
        + crate::text::decimal(written)
        + " bytes that arrived, but the CRC-32 that would check them never did, so it must not be written back to a device"@
}

fn unchecked(message: &str, path: &str, written: u64) -> (text: String)
    ensures
        text@ == unchecked_text(message@, path@, written as nat),
{
    let mut text = message.to_owned();
    text.append("; ");
    text.append(path);
    text.append(" holds the ");
    push_decimal(&mut text, written);
    text.append(" bytes that arrived, but the CRC-32 that would check them never did, so it must not be written back to a device");
    text
}

/// A read that does not check.
pub open spec fn corrupted_text(at: Seq<char>, received: nat, actual: nat, expected: nat, path: Seq<char>) -> Seq<char> {
    "the "@
        + crate::text::decimal(received)
        + " bytes read from "@
        + at
        + " hash to CRC-32 0x"@
        + crate::text::hex(actual, 8, true)
        + ", but the daemon says 0x"@
        + crate::text::hex(expected, 8, true)
        + ": the image arrived corrupted. "@
        + path
        + " holds what arrived and must not be written back to a device"@
}

fn corrupted(at: &str, received: u64, actual: u64, expected: u64, path: &str) -> (text: String)
    requires
        actual <= u32::MAX,
        expected <= u32::MAX,
    ensures
        text@ == corrupted_text(at@, received as nat, actual as nat, expected as nat, path@),
{
    let mut text = "the ".to_owned();
    push_decimal(&mut text, received);
    text.append(" bytes read from ");
    text.append(at);
    text.append(" hash to CRC-32 0x");
    push_hex(&mut text, actual as u32, 8, true);
    text.append(", but the daemon says 0x");
    push_hex(&mut text, expected as u32, 8, true);
    text.append(": the image arrived corrupted. ");
    text.append(path);
    text.append(" holds what arrived and must not be written back to a device");
    text
}

/// A file that takes no more.
pub open spec fn unwritable_text(path: Seq<char>) -> Seq<char> {
    "cannot write to "@
        + path
}

fn unwritable(path: &str) -> (text: String)
    ensures
        text@ == unwritable_text(path@),
{
    let mut text = "cannot write to ".to_owned();
    text.append(path);
    text
}

// ---------------------------------------------------------------------------
// Connecting.
// ---------------------------------------------------------------------------
/// The addresses of a daemon, tried one after the other.
#[derive(Debug, Clone, PartialEq, Eq)]
pub struct Dial {
    /// Where the daemon is.
    pub at: Address,
    /// Every address it resolves to, in the resolver's order.
    pub addresses: Vec<String>,
    /// Those that were tried, and what each said.
    pub attempts: Vec<Attempt>,
}

impl Dial {
    /// The attempts are the first addresses, in order.
    pub open spec fn wf(self) -> bool {
        &&& self.attempts.len() <= self.addresses.len()
        &&& forall|i: int| 0 <= i < self.attempts.len() ==> #[trigger] self.attempts[i].address == self.addresses[i]
    }

    /// Take what the resolver said.
    ///
    /// # Errors
    /// The resolver's reason, or that the name has no address at all.
    pub fn resolve(at: Address, found: Result<Vec<String>, String>) -> (dial: Result<Dial, RemoteError>)
        ensures
            match found {
                Err(reason) => dial matches Err(RemoteError::Protocol(message)) && message@ == unresolved_text(
                    at.text(),
                    reason@,
                ),
                Ok(addresses) => if addresses@.len() == 0 {
                    dial matches Err(RemoteError::Protocol(message)) && message@ == no_addresses_text(at.text())
                } else {
                    dial matches Ok(dial) && dial.wf() && dial.at == at && dial.addresses == addresses
                        && dial.attempts@.len() == 0
                },
            },
    {
        let place = at.display();
        match found {
            Err(reason) => Err(RemoteError::protocol(unresolved(place.as_str(), reason.as_str()))),
            Ok(addresses) => {
                if addresses.len() == 0 {
                    return Err(RemoteError::protocol(no_addresses(place.as_str())));
                }
                Ok(Dial { at, addresses, attempts: Vec::new() })
            },
        }
    }

    /// The address to try next, where one is left.
    pub fn next(&self) -> (address: Option<&str>)
        requires
            self.wf(),
        ensures
            if self.attempts.len() < self.addresses.len() {
                address matches Some(address) && address@ == self.addresses[self.attempts.len() as int]@
            } else {
                address is None
            },
    {
        if self.attempts.len() < self.addresses.len() {
            Some(self.addresses[self.attempts.len()].as_str())
        } else {
            None
        }
    }

    /// The address did not connect, for this reason.
    pub fn failed(&mut self, reason: String)
        requires
            old(self).wf(),
            old(self).attempts.len() < old(self).addresses.len(),
        ensures
            final(self).wf(),
            final(self).at == old(self).at,
            final(self).addresses == old(self).addresses,
            final(self).attempts@ == old(self).attempts@.push(
                (Attempt { address: old(self).addresses[old(self).attempts.len() as int], reason }),
            ),
    {
        let address = self.addresses[self.attempts.len()].clone();
        self.attempts.push(Attempt { address, reason });
    }

    /// No address connected: each with its reason.
    pub fn give_up(&self) -> (error: RemoteError)
        requires
            self.wf(),
            self.attempts.len() == self.addresses.len(),
        ensures
            error matches RemoteError::Protocol(message) && message@ == crate::remote::error::unreachable_text(
                self.at.text(),
                self.attempts@,
            ),
    {
        connect_failed(&self.at, &self.attempts)
    }
}

/// An open conversation with one daemon.
#[derive(Debug, Clone, PartialEq, Eq)]
pub struct Client {
    /// Where it goes.
    pub at: Address,
    /// Whether the token handshake was sent.
    pub sent_token: bool,
    /// Whether the peer has yet to prove it is a daemon by sending one frame.
    pub awaiting_first_frame: bool,
    /// How long it has for that, in milliseconds.
    pub deadline: u64,
    /// How many log and progress frames one command may be answered with.
    pub intermediate_budget: u64,
}

/// The four bytes of a number, the highest first.
pub open spec fn big_endian(n: u32) -> Seq<u8> {
    seq![(n / 0x100_0000) as u8, ((n / 0x1_0000) % 256) as u8, ((n / 256) % 256) as u8, (n % 256) as u8]
}

/// The number that four bytes spell, the highest first.
pub open spec fn from_big_endian(bytes: Seq<u8>) -> int {
    bytes[0] * 0x100_0000 + bytes[1] * 0x1_0000 + bytes[2] * 256 + bytes[3]
}

/// The frame of a token handshake: magic, version, length and token.
pub open spec fn handshake_bytes(magic: u32, token: Seq<u8>) -> Seq<u8> {
    big_endian(magic) + seq![VERSION, token.len() as u8] + token
}

/// Is this one of the two refusals that a daemon's auth path can send?
pub open spec fn is_auth_refusal(message: Seq<char>) -> bool {
    message == "auth: invalid token"@ || message == "auth: bad handshake"@
}

/// A frame, as far as its head says.
#[derive(Debug, Clone, Copy, PartialEq, Eq, Structural)]
pub enum Frame {
    /// A line of text, of so many bytes.
    Log(u32),
    /// A counter, of so many bytes.
    Progress(u32),
    /// The last frame of the answer.
    Final(ResponseHeader),
}

/// What follows the head of a final frame.
#[derive(Debug, Clone, Copy, PartialEq, Eq, Structural)]
pub enum Answer {
    /// The answer, of so many bytes.
    Payload(u32),
    /// Why there is none, in so many bytes.
    Reason(u32),
}

impl Client {
    /// The budget leaves room to count the frame that breaks it.
    pub open spec fn wf(self) -> bool {
        self.intermediate_budget < u64::MAX
    }

    /// A conversation over a socket that is connected, with or without a token.
    pub fn connect(at: Address, token: Option<&str>) -> (client: Client)
        ensures
            client.wf(),
            client == (Client {
                at,
                sent_token: token is Some,
                awaiting_first_frame: token is None,
                deadline: HANDSHAKE_TIMEOUT,
                intermediate_budget: MAX_INTERMEDIATE_FRAMES,
            }),
    {
        Client::connect_with(at, token, HANDSHAKE_TIMEOUT)
    }

    /// [`connect`](Client::connect), with the first-answer deadline as a parameter.
    pub fn connect_with(at: Address, token: Option<&str>, deadline: u64) -> (client: Client)
        ensures
            client.wf(),
            client == (Client {
                at,
                sent_token: token is Some,
                awaiting_first_frame: token is None,
                deadline,
                intermediate_budget: MAX_INTERMEDIATE_FRAMES,
            }),
    {
        Client {
            at,
            sent_token: token.is_some(),
            awaiting_first_frame: token.is_none(),
            deadline,
            intermediate_budget: MAX_INTERMEDIATE_FRAMES,
        }
    }

    /// Where this client is talking to.
    pub fn at(&self) -> (at: &Address)
        ensures
            *at == self.at,
    {
        &self.at
    }

    // -----------------------------------------------------------------
    // The token handshake.
    // -----------------------------------------------------------------
    /// The frame that carries the token. `magic` is what every frame begins with.
    ///
    /// # Errors
    /// When the token does not fit its length field: nothing is truncated.
    pub fn handshake(token: &str, magic: u32) -> (frame: Result<Vec<u8>, RemoteError>)
        ensures
            if token.spec_bytes().len() > 255 {
                frame matches Err(RemoteError::Protocol(message)) && message@ == token_too_long_text(
                    token.spec_bytes().len(),
                )
            } else {
                frame matches Ok(frame) && frame@ == handshake_bytes(magic, token.spec_bytes())
            },
    {
        let bytes = token.as_bytes();
        if bytes.len() > 255 {
            return Err(RemoteError::protocol(token_too_long(bytes.len() as u64)));
        }
        let mut frame: Vec<u8> = Vec::new();
        frame.push((magic / 0x100_0000) as u8);
        frame.push(((magic / 0x1_0000) % 256) as u8);
        frame.push(((magic / 256) % 256) as u8);
        frame.push((magic % 256) as u8);
        frame.push(VERSION);
        frame.push(bytes.len() as u8);
        frame.extend_from_slice(bytes);
        assert(frame@ =~= handshake_bytes(magic, token.spec_bytes()));
        Ok(frame)
    }

    /// How a handshake ended, by the kind of its answer and what that says.
    pub open spec fn handshake_ended(self, status: Status, message: Seq<char>, outcome: Result<(), RemoteError>) -> bool {
        let shown = crate::render::all_shown(message, true);
        match status {
            Status::Done => outcome is Ok,
            Status::Error => outcome matches Err(RemoteError::Protocol(text)) && text@ == (if shown.len() == 0 {
                token_rejected_silently_text(self.at.text())
            } else if is_auth_refusal(shown) {
                token_rejected_text(self.at.text(), shown)
            } else {
                token_not_read_text(self.at.text(), shown)
            }),
            _ => outcome matches Err(RemoteError::Protocol(text)) && text@ == handshake_unanswered_text(
                self.at.text(),
                status_word(status),
            ),
        }
    }

    /// How a handshake ended.
    ///
    /// # Errors
    /// A refusal of the auth path is quoted. Any other refusal comes from a daemon that read
    /// the handshake as a command, because it was started without a token.
    pub fn handshake_outcome(&self, status: Status, message: &str) -> (outcome: Result<(), RemoteError>)
        ensures
            self.handshake_ended(status, message@, outcome),
    {
        let place = self.at.display();
        let shown = sanitise(message);
        match status {
            Status::Done => Ok(()),
            Status::Error => {
                if shown.as_str().is_empty() {
                    Err(RemoteError::protocol(token_rejected_silently(place.as_str())))
                } else if same_text(shown.as_str(), "auth: invalid token") || same_text(
                    shown.as_str(),
                    "auth: bad handshake",
                ) {
                    Err(RemoteError::protocol(token_rejected(place.as_str(), shown.as_str())))
                } else {
                    Err(RemoteError::protocol(token_not_read(place.as_str(), shown.as_str())))
                }
            },
            _ => Err(RemoteError::protocol(handshake_unanswered(place.as_str(), status_name(status)))),
        }
    }

    /// How a handshake ended, from the bytes of its answer.
    ///
    /// # Errors
    /// Those of [`handshake_outcome`](Client::handshake_outcome).
    pub fn handshake_answered(&self, status: Status, payload: &[u8]) -> (outcome: Result<(), RemoteError>)
        ensures
            self.handshake_ended(status, crate::text::lossy_text(payload@), outcome),
    {
        let message = lossy(payload);
        self.handshake_outcome(status, message.as_str())
    }

    // -----------------------------------------------------------------
    // Sending.
    // -----------------------------------------------------------------
    /// How many bytes a request's header announces, from what encoding the request gave.
    ///
    /// # Errors
    /// The encoder's reason, or that the payload is past the cap.
    pub fn send(&self, encoded: &Result<Vec<u8>, String>, doing: &str) -> (announced: Result<u32, RemoteError>)
        ensures
            match *encoded {
                Err(reason) => announced matches Err(RemoteError::Protocol(message)) && message@
                    == unencodable_text(doing@, reason@),
                Ok(payload) => if payload@.len() > MAX_PAYLOAD {
                    announced matches Err(RemoteError::Protocol(message)) && message@ == too_big_text(
                        doing@,
                        payload@.len(),
                    )
                } else {
                    announced matches Ok(length) && length == payload@.len()
                },
            },
    {
        match encoded {
            Err(reason) => Err(RemoteError::protocol(unencodable(doing, reason.as_str()))),
            Ok(payload) => {
                if payload.len() > MAX_PAYLOAD as usize {
                    return Err(RemoteError::protocol(too_big(doing, payload.len() as u64)));
                }
                Ok(payload.len() as u32)
            },
        }
    }

    /// The failure of a send.
    ///
    /// A deadline that expired is reported as the deadline it is.
    pub fn send_failed(&self, kind: IoKind, reason: &str, doing: &str) -> (error: RemoteError)
        ensures
            error matches RemoteError::Protocol(message) && message@ == (if is_expiry(kind) {
                stalled_text(self.at.text(), duration_text(SEND_TIMEOUT), doing@)
            } else {
                send_refused_text(self.at.text(), doing@, reason@)
            }),
    {
        let place = self.at.display();
        if timed_out(kind) {
            let deadline = duration(SEND_TIMEOUT);
            return RemoteError::protocol(stalled(place.as_str(), deadline.as_str(), doing));
        }
        RemoteError::protocol(send_refused(place.as_str(), doing, reason))
    }

    // -----------------------------------------------------------------
    // The first answer.
    // -----------------------------------------------------------------
    /// Is the next read under the first-answer deadline?
    pub fn fill_first_frame(&self) -> (armed: bool)
        ensures
            armed == self.awaiting_first_frame,
    {
        self.awaiting_first_frame
    }

    /// A frame is complete, or has failed: is the deadline lifted now?
    ///
    /// It is lifted once, where the first frame ends. From then on silence is a long
    /// operation and not a peer that is no daemon.
    pub fn first_frame_done(&mut self) -> (lifted: bool)
        ensures
            lifted == old(self).awaiting_first_frame,
            *final(self) == (Client { awaiting_first_frame: false, ..*old(self) }),
    {
        if !self.awaiting_first_frame {
            return false;
        }
        self.awaiting_first_frame = false;
        true
    }

    /// The failure of a read that stopped short.
    pub open spec fn stop_text(self, stopped: Stopped, doing: Seq<char>) -> Seq<char> {
        match stopped {
            Stopped::Closed => closed_text(self.at.text(), doing),
            Stopped::Dropped { got, want } => dropped_text(self.at.text(), got as nat, want as nat, doing),
            Stopped::Failed { kind, reason } => if is_expiry(kind) {
                silent_text(self.at.text(), duration_text(self.deadline), doing)
            } else {
                read_failed_text(self.at.text(), doing, reason@)
            },
        }
    }

    /// The failure of a read that stopped short: a peer that closed, one that closed part
    /// way, a deadline that expired, or what the operating system says.
    pub fn stopped(&self, stopped: &Stopped, doing: &str) -> (error: RemoteError)
        ensures
            error matches RemoteError::Protocol(message) && message@ == self.stop_text(*stopped, doing@),
    {
        let place = self.at.display();
        match stopped {
            Stopped::Closed => RemoteError::protocol(closed(place.as_str(), doing)),
            Stopped::Dropped { got, want } => RemoteError::protocol(
                dropped(place.as_str(), *got as u64, *want as u64, doing),
            ),
            Stopped::Failed { kind, reason } => {
                if timed_out(*kind) {
                    let deadline = duration(self.deadline);
                    return RemoteError::protocol(silent(place.as_str(), deadline.as_str(), doing));
                }
                RemoteError::protocol(read_failed(place.as_str(), doing, reason.as_str()))
            },
        }
    }

    // -----------------------------------------------------------------
    // Frames.
    // -----------------------------------------------------------------
    /// The head of a frame, from what decoding its ten bytes gave. `version` and `kind` are
    /// the fifth and the sixth of them.
    ///
    /// # Errors
    /// What the bytes are instead: not a daemon's, of another version, of an undefined kind,
    /// or unreadable.
    pub fn header(
        &self,
        version: u8,
        kind: u8,
        decoded: Result<ResponseHeader, HeaderFault>,
        doing: &str,
    ) -> (header: Result<ResponseHeader, RemoteError>)
        ensures
            match decoded {
                Ok(decoded) => header == Ok::<ResponseHeader, RemoteError>(decoded),
                Err(fault) => header matches Err(RemoteError::Protocol(message)) && message@ == (match fault {
                    HeaderFault::BadMagic => not_a_daemon_text(self.at.text(), doing@),
                    HeaderFault::VersionMismatch => other_version_text(self.at.text(), version as nat),
                    HeaderFault::UnknownStatus => undefined_kind_text(self.at.text(), doing@, kind as nat),
                    HeaderFault::Other(reason) => unreadable_frame_text(self.at.text(), doing@, reason@),
                }),
            },
    {
        let place = self.at.display();
        match decoded {
            Ok(decoded) => Ok(decoded),
            Err(HeaderFault::BadMagic) => Err(RemoteError::protocol(not_a_daemon(place.as_str(), doing))),
            Err(HeaderFault::VersionMismatch) => Err(
                RemoteError::protocol(other_version(place.as_str(), version as u64)),
            ),
            Err(HeaderFault::UnknownStatus) => Err(
                RemoteError::protocol(undefined_kind(place.as_str(), doing, kind as u64)),
            ),
            Err(HeaderFault::Other(reason)) => Err(
                RemoteError::protocol(unreadable_frame(place.as_str(), doing, reason.as_str())),
            ),
        }
    }

    /// The length of a frame that is supposed to be small.
    ///
    /// # Errors
    /// When it announces more than a line of text: the stream has lost its framing.
    pub fn intermediate_payload(&self, length: u32, doing: &str) -> (checked: Result<u32, RemoteError>)
        ensures
            if length > MAX_INTERMEDIATE {
                checked matches Err(RemoteError::Protocol(message)) && message@ == oversize_frame_text(
                    self.at.text(),
                    length as nat,
                    doing@,
                )
            } else {
                checked == Ok::<u32, RemoteError>(length)
            },
    {
        if length > MAX_INTERMEDIATE {
            let place = self.at.display();
            return Err(RemoteError::protocol(oversize_frame(place.as_str(), length as u64, doing)));
        }
        Ok(length)
    }

    /// What a frame is, after so many log and progress frames of the same answer.
    pub open spec fn frame_read(
        self,
        intermediates: u64,
        header: ResponseHeader,
        doing: Seq<char>,
        outcome: Result<(u64, Frame), RemoteError>,
    ) -> bool {
        if header.status is Log || header.status is Progress {
            if intermediates + 1 > self.intermediate_budget {
                outcome matches Err(RemoteError::Protocol(message)) && message@ == endless_text(
                    self.at.text(),
                    (intermediates + 1) as nat,
                    doing,
                )
            } else if header.payload_len > MAX_INTERMEDIATE {
                outcome matches Err(RemoteError::Protocol(message)) && message@ == oversize_frame_text(
                    self.at.text(),
                    header.payload_len as nat,
                    doing,
                )
            } else {
                outcome matches Ok((count, frame)) && count == intermediates + 1 && frame == (if header.status is Log {
                    Frame::Log(header.payload_len)
                } else {
                    Frame::Progress(header.payload_len)
                })
            }
        } else {
            outcome == Ok::<(u64, Frame), RemoteError>((intermediates, Frame::Final(header)))
        }
    }

    /// What a frame is, on the way to the final one, and how many were not final so far.
    ///
    /// # Errors
    /// When the peer has sent more log and progress frames than its budget without an answer;
    /// the frame that breaks it is not read. And when one of them is too large.
    pub fn until_final(
        &self,
        intermediates: u64,
        header: ResponseHeader,
        doing: &str,
    ) -> (outcome: Result<(u64, Frame), RemoteError>)
        requires
            self.wf(),
            intermediates <= self.intermediate_budget,
        ensures
            self.frame_read(intermediates, header, doing@, outcome),
    {
        let is_log = matches!(header.status, Status::Log);
        if !is_log && !matches!(header.status, Status::Progress) {
            return Ok((intermediates, Frame::Final(header)));
        }
        let count: u64 = intermediates + 1;
        if count > self.intermediate_budget {
            let place = self.at.display();
            return Err(RemoteError::protocol(endless(place.as_str(), count, doing)));
        }
        match self.intermediate_payload(header.payload_len, doing) {
            Err(error) => Err(error),
            Ok(length) => Ok(
                (
                    count,
                    if is_log {
                        Frame::Log(length)
                    } else {
                        Frame::Progress(length)
                    },
                ),
            ),
        }
    }

    /// Print a log line, with the newline it may lack, over a counter that is blanked first.
    pub fn log_line(text: &str, bar: &mut Bar, err: &mut String)
        ensures
            final(err)@ == old(err)@ + crate::render::blanking(old(bar).width()) + logged(text@),
            final(bar).width() == 0,
            final(bar).said() == (if old(bar).width() == 0 {
                old(bar).said()
            } else {
                None
            }),
    {
        bar.clear(err);
        let shown = sanitise(text);
        err.append(shown.as_str());
        let chars = crate::text::chars_of(shown.as_str());
        if chars.len() == 0 || chars[chars.len() - 1] != '\n' {
            err.append("\n");
        }
        assert(err@ =~= old(err)@ + crate::render::blanking(old(bar).width()) + logged(text@));
    }

    /// Print the line that a log frame carries.
    pub fn log(payload: &[u8], bar: &mut Bar, err: &mut String)
        ensures
            final(err)@ == old(err)@ + crate::render::blanking(old(bar).width()) + logged(
                crate::text::lossy_text(payload@),
            ),
            final(bar).width() == 0,
            final(bar).said() == (if old(bar).width() == 0 {
                old(bar).said()
            } else {
                None
            }),
    {
        let text = lossy(payload);
        Client::log_line(text.as_str(), bar, err);
    }

    /// Draw the counter that a progress frame carries, from what decoding its payload gave.
    ///
    /// A body that does not add up costs a note and nothing else: the frame itself arrived
    /// whole. Its first two bytes are still drawn.
    pub fn progress(
        &self,
        payload: &Vec<u8>,
        decoded: &Result<ProgressBody, String>,
        doing: &str,
        phases: &Vec<Phase>,
        bar: &mut Bar,
        err: &mut String,
    )
        ensures
            match *decoded {
                Ok(body) => wire_drawn(
                    *old(bar),
                    *final(bar),
                    body.percent,
                    body.stage,
                    body.message@,
                    phases@,
                    old(err)@,
                    final(err)@,
                ),
                Err(reason) => exists|noted: Bar| #[trigger]
                    drawn_after_note(
                        *old(bar),
                        noted,
                        *final(bar),
                        unreadable_progress_text(self.at.text(), doing@, reason@),
                        payload@,
                        phases@,
                        old(err)@,
                        final(err)@,
                    ),
            },
    {
        match decoded {
            Ok(body) => {
                bar.wire(body.percent, body.stage, body.message.as_str(), phases, err);
            },
            Err(reason) => {
                let place = self.at.display();
                let note = unreadable_progress(place.as_str(), doing, reason.as_str());
                bar.note(note.as_str(), err);
                let ghost noted = *bar;
                if payload.len() >= 2 {
                    let empty = String::new();
                    bar.wire(payload[0], payload[1], empty.as_str(), phases, err);
                    assert(empty@ =~= Seq::<char>::empty());
                }
                assert(drawn_after_note(*old(bar), noted, *bar, note@, payload@, phases@, old(err)@, err@));
            },
        }
    }

    /// What follows the head of a final frame.
    ///
    /// # Errors
    /// When an answer is past the cap, which only a read may be; when a reason is too large;
    /// and for a frame that is no answer.
    pub fn finish(&self, header: ResponseHeader, doing: &str) -> (answer: Result<Answer, RemoteError>)
        ensures
            match header.status {
                Status::Done => if header.payload_len > MAX_PAYLOAD {
                    answer matches Err(RemoteError::Protocol(message)) && message@ == oversize_answer_text(
                        self.at.text(),
                        doing@,
                        header.payload_len as nat,
                    )
                } else {
                    answer == Ok::<Answer, RemoteError>(Answer::Payload(header.payload_len))
                },
                _ => self.not_answered(header, doing@, answer),
            },
    {
        match header.status {
            Status::Done => {
                if header.payload_len > MAX_PAYLOAD {
                    let place = self.at.display();
                    return Err(
                        RemoteError::protocol(oversize_answer(place.as_str(), doing, header.payload_len as u64)),
                    );
                }
                Ok(Answer::Payload(header.payload_len))
            },
            _ => self.without_answer(header, doing),
        }
    }

    /// What follows the head of a final frame that carries no answer.
    pub open spec fn not_answered(
        self,
        header: ResponseHeader,
        doing: Seq<char>,
        answer: Result<Answer, RemoteError>,
    ) -> bool {
        if header.status is Error {
            if header.payload_len > MAX_INTERMEDIATE {
                answer matches Err(RemoteError::Protocol(message)) && message@ == oversize_frame_text(
                    self.at.text(),
                    header.payload_len as nat,
                    doing,
                )
            } else {
                answer == Ok::<Answer, RemoteError>(Answer::Reason(header.payload_len))
            }
        } else {
            answer matches Err(RemoteError::Protocol(message)) && message@ == not_an_answer_text(
                self.at.text(),
                doing,
                status_word(header.status),
            )
        }
    }

    fn without_answer(&self, header: ResponseHeader, doing: &str) -> (answer: Result<Answer, RemoteError>)
        ensures
            self.not_answered(header, doing@, answer),
    {
        match header.status {
            Status::Error => match self.intermediate_payload(header.payload_len, doing) {
                Ok(length) => Ok(Answer::Reason(length)),
                Err(error) => Err(error),
            },
            _ => Err(self.unexpected_final(doing, header.status)),
        }
    }

    /// A final frame that is no answer.
    pub fn unexpected_final(&self, doing: &str, status: Status) -> (error: RemoteError)
        ensures
            error matches RemoteError::Protocol(message) && message@ == not_an_answer_text(
                self.at.text(),
                doing@,
                status_word(status),
            ),
    {
        let place = self.at.display();
        RemoteError::protocol(not_an_answer(place.as_str(), doing, status_name(status)))
    }

    /// What a daemon's refusal is.
    pub open spec fn refusal_is(self, doing: Seq<char>, message: Seq<char>, error: RemoteError) -> bool {
        let shown = crate::render::all_shown(message, true);
        if !self.sent_token && AUTH_PREFIX@.is_prefix_of(shown) {
            error matches RemoteError::Protocol(text) && text@ == token_required_text(self.at.text(), doing, shown)
        } else {
            error matches RemoteError::Refused(text) && text@ == crate::remote::error::refusal_text(
                self.at.text(),
                doing,
                shown,
            )
        }
    }

    /// A daemon's refusal, as the failure it is.
    ///
    /// It is the operation's, unless the auth path answered where no token was sent: then the
    /// daemon wants one, and nothing was attempted.
    pub fn refusal_for(&self, doing: &str, message: &str) -> (error: RemoteError)
        ensures
            self.refusal_is(doing@, message@, error),
    {
        let shown = sanitise(message);
        if !self.sent_token && begins_with(shown.as_str(), AUTH_PREFIX) {
            let place = self.at.display();
            return RemoteError::protocol(token_required(place.as_str(), doing, shown.as_str()));
        }
        RemoteError::refused(&self.at, doing, shown.as_str())
    }

    /// A daemon's refusal, from the bytes of its reason.
    pub fn refused(&self, doing: &str, payload: &[u8]) -> (error: RemoteError)
        ensures
            self.refusal_is(doing@, crate::text::trimmed_end(crate::text::lossy_text(payload@)), error),
    {
        let text = lossy(payload);
        let message = trim_end(text.as_str());
        self.refusal_for(doing, message.as_str())
    }
}

/// A log line as it is printed: made safe, and ended.
pub open spec fn logged(text: Seq<char>) -> Seq<char> {
    let shown = crate::render::all_shown(text, true);
    if shown.len() == 0 || shown.last() != '\n' {
        shown + "\n"@
    } else {
        shown
    }
}

/// What drawing a daemon's counter does.
pub open spec fn wire_drawn(
    before: Bar,
    after: Bar,
    percent: u8,
    stage: u8,
    message: Seq<char>,
    phases: Seq<Phase>,
    written: Seq<char>,
    now_written: Seq<char>,
) -> bool {
    let line = crate::render::wire_text(percent, crate::render::phase_label(phases, stage), message);
    crate::render::redrawn(
        before,
        after,
        crate::render::fnv(vstd::utf8::encode_utf8(line)),
        line,
        written,
        now_written,
    )
}

/// What a note does, and then a counter with nothing but the first two bytes of a payload.
pub open spec fn drawn_after_note(
    before: Bar,
    noted: Bar,
    after: Bar,
    note: Seq<char>,
    payload: Seq<u8>,
    phases: Seq<Phase>,
    written: Seq<char>,
    now_written: Seq<char>,
) -> bool {
    let with_note = written + crate::render::blanking(before.width()) + note + "\n"@;
    &&& noted.width() == 0
    &&& noted.said() == (if before.width() == 0 {
        before.said()
    } else {
        None
    })
    &&& if payload.len() >= 2 {
        wire_drawn(noted, after, payload[0], payload[1], Seq::empty(), phases, with_note, now_written)
    } else {
        after == noted && now_written == with_note
    }
}

// ---------------------------------------------------------------------------
// A read, streamed to its file.
// ---------------------------------------------------------------------------
/// The lesser of two numbers.
pub open spec fn lesser(left: int, right: int) -> int {
    if left < right {
        left
    } else {
        right
    }
}

/// How many of so many bytes a cap keeps.
pub open spec fn kept_of(count: int, limit: Option<u64>) -> int {
    match limit {
        Some(limit) => lesser(count, limit as int),
        None => count,
    }
}

/// A read on its way from the daemon to a file.
///
/// Nothing is buffered: each piece goes to the file as it arrives. A cap keeps the first
/// bytes and drops the rest, which still have to arrive: the check covers all of them.
#[derive(Debug, Clone, PartialEq, Eq)]
pub struct Download {
    /// How many bytes the read is.
    pub data_len: u64,
    /// How many of them arrived.
    pub received: u64,
    /// How many of them are in the file.
    pub written: u64,
    /// How many the file is to have at most.
    pub limit: Option<u64>,
    /// The register that everything that arrived was fed to.
    pub register: u32,
    /// The file.
    pub path: String,
}

/// What the head of a read's final frame starts.
#[derive(Debug, Clone, PartialEq, Eq)]
pub enum Opening {
    /// The read.
    Data(Download),
    /// The reason why there is none, of so many bytes.
    Reason(u32),
}

impl Download {
    /// What arrived is part of the read, and what is in the file is what the cap keeps of it.
    pub open spec fn wf(self) -> bool {
        &&& self.received <= self.data_len <= MAX_READ
        &&& self.written == kept_of(self.received as int, self.limit)
    }

    /// Are these the bytes that arrived?
    pub open spec fn has_read(self, data: Seq<u8>) -> bool {
        self.received == data.len() && self.register == crate::remote::crc::fed(crate::remote::crc::FRESH, data)
    }

    /// Is this a read of which nothing arrived yet, announced as so many bytes with its check?
    pub open spec fn is_opened(self, announced: int, limit: Option<u64>) -> bool {
        &&& self.data_len == announced - 4
        &&& self.received == 0
        &&& self.written == 0
        &&& self.limit == limit
        &&& self.has_read(Seq::empty())
    }

    /// How many bytes to read next; none when they all arrived.
    pub open spec fn due(self) -> int {
        lesser(self.data_len - self.received, CHUNK as int)
    }

    /// How many bytes to read next, where any are due.
    pub fn next(&self) -> (want: Option<usize>)
        requires
            self.wf(),
        ensures
            match want {
                Some(want) => want == self.due() && want > 0,
                None => self.received == self.data_len,
            },
    {
        if self.received == self.data_len {
            return None;
        }
        let rest: u64 = self.data_len - self.received;
        if rest < CHUNK as u64 {
            Some(rest as usize)
        } else {
            Some(CHUNK)
        }
    }

    /// The piece that was due arrived: how many of its first bytes go to the file?
    pub fn arrived(&mut self, piece: &[u8]) -> (keep: usize)
        requires
            old(self).wf(),
            old(self).received < old(self).data_len,
            piece@.len() == old(self).due(),
        ensures
            final(self).wf(),
            *final(self) == (Download {
                received: (old(self).received + old(self).due()) as u64,
                written: (old(self).written + keep) as u64,
                register: crate::remote::crc::fed(old(self).register, piece@),
                ..*old(self)
            }),
            keep <= old(self).due(),
            keep == kept_of(old(self).received + old(self).due(), old(self).limit) - old(self).written,
            piece_arrived(*old(self), piece@, keep as int, *final(self)),
    {
        let rest: u64 = self.data_len - self.received;
        let want: u64 = if rest < CHUNK as u64 { rest } else { CHUNK as u64 };
        self.received += want;
        self.register = feed(self.register, piece);
        let keep: u64 = match self.limit {
            None => want,
            Some(limit) => {
                let room: u64 = limit - self.written;
                if room < want {
                    room
                } else {
                    want
                }
            },
        };
        self.written += keep;
        keep as usize
    }

    /// How far the read is: what arrived, what the cap drops included, of all that was announced.
    pub fn counted(&self) -> (counted: (u64, Option<u64>))
        ensures
            counted == (self.received, Some(self.data_len)),
    {
        (self.received, Some(self.data_len))
    }

    /// The counter that is drawn after each piece. `phase` is what a read is called, and `line`
    /// is what [`counted`](Download::counted) reads as.
    pub fn progress(&self, phase: String, line: String) -> (progress: Progress)
        ensures
            progress == (Progress::Bytes {
                phase,
                done: self.received,
                total: Some(self.data_len),
                counted: line,
            }),
    {
        let (done, total) = self.counted();
        Progress::Bytes { phase, done, total, counted: line }
    }

    /// The read stopped before it was complete.
    pub fn interrupted(&self, error: RemoteError) -> (failure: RemoteError)
        ensures
            file_named(error, self.path@, self.written, failure),
    {
        short_file(error, self.path.as_str(), self.written)
    }

    /// The read is complete, and its check did not arrive.
    pub fn check_lost(&self, error: RemoteError) -> (failure: RemoteError)
        ensures
            match error {
                RemoteError::Protocol(message) if self.written > 0 => failure matches RemoteError::Protocol(text)
                    && text@ == unchecked_text(message@, self.path@, self.written as nat),
                _ => failure == error,
            },
    {
        match error {
            RemoteError::Protocol(message) if self.written > 0 => RemoteError::protocol(
                unchecked(message.as_str(), self.path.as_str(), self.written),
            ),
            other => other,
        }
    }

    /// The file refused its bytes.
    pub fn file_failed(&self, kind: IoKind, reason: &str) -> (failure: RemoteError)
        ensures
            failure matches RemoteError::File(file) && file.kind == kind && file.message@ == unwritable_text(
                self.path@,
            ) + ": "@ + reason@,
    {
        let what = unwritable(self.path.as_str());
        RemoteError::file(what.as_str(), kind, reason)
    }

    /// The CRC-32 of everything that arrived.
    pub open spec fn check(self) -> u32 {
        !self.register
    }

    /// Is this the check of everything that arrived?
    pub open spec fn accepts(self, trailer: Seq<u8>) -> bool {
        from_big_endian(trailer) == self.check()
    }

    /// The read is complete and so is its check: how many bytes are in the file?
    ///
    /// # Errors
    /// When the check is not that of what arrived. The file is kept, and named as what it is.
    pub fn checked(&self, at: &Address, trailer: &[u8; 4]) -> (written: Result<u64, RemoteError>)
        ensures
            written is Ok <==> self.accepts(trailer@),
            if from_big_endian(trailer@) == self.check() {
                written == Ok::<u64, RemoteError>(self.written)
            } else {
                written matches Err(RemoteError::Protocol(message)) && message@ == corrupted_text(
                    at.text(),
                    self.received as nat,
                    self.check() as nat,
                    from_big_endian(trailer@) as nat,
                    self.path@,
                )
            },
    {
        let actual: u32 = !self.register;
        let expected: u32 = trailer[0] as u32 * 0x100_0000 + trailer[1] as u32 * 0x1_0000 + trailer[2] as u32 * 256
            + trailer[3] as u32;
        if expected != actual {
            let place = at.display();
            return Err(
                RemoteError::protocol(
                    corrupted(
                        place.as_str(),
                        self.received,
                        actual as u64,
                        expected as u64,
                        self.path.as_str(),
                    ),
                ),
            );
        }
        Ok(self.written)
    }
}

impl Client {
    /// Take the head of a read's final frame.
    ///
    /// # Errors
    /// When it announces more than any part holds, or less than the check that ends it; and
    /// for a frame that is no answer.
    pub fn read_to(
        &self,
        header: ResponseHeader,
        doing: &str,
        path: &str,
        limit: Option<u64>,
    ) -> (opening: Result<Opening, RemoteError>)
        ensures
            match header.status {
                Status::Done => if header.payload_len > MAX_READ {
                    opening matches Err(RemoteError::Protocol(message)) && message@ == absurd_read_text(
                        self.at.text(),
                        doing@,
                        header.payload_len as nat,
                    )
                } else if header.payload_len < 4 {
                    opening matches Err(RemoteError::Protocol(message)) && message@ == no_room_for_crc_text(
                        self.at.text(),
                        doing@,
                        header.payload_len as nat,
                    )
                } else {
                    opening matches Ok(Opening::Data(download)) && download.wf() && download.is_opened(
                        header.payload_len as int,
                        limit,
                    ) && download.data_len
                        == header.payload_len - 4 && download.has_read(Seq::empty()) && download.limit == limit
                        && download.path@ == path@
                },
                _ => match opening {
                    Ok(Opening::Reason(length)) => self.not_answered(header, doing@, Ok(Answer::Reason(length))),
                    Ok(Opening::Data(_)) => false,
                    Err(error) => self.not_answered(header, doing@, Err(error)),
                },
            },
    {
        if !matches!(header.status, Status::Done) {
            return match self.without_answer(header, doing) {
                Ok(Answer::Reason(length)) => Ok(Opening::Reason(length)),
                Ok(Answer::Payload(length)) => Ok(Opening::Reason(length)),
                Err(error) => Err(error),
            };
        }
        let place = self.at.display();
        let announced: u64 = header.payload_len as u64;
        if announced > MAX_READ {
            return Err(RemoteError::protocol(absurd_read(place.as_str(), doing, announced)));
        }
        if announced < 4 {
            return Err(RemoteError::protocol(no_room_for_crc(place.as_str(), doing, announced)));
        }
        Ok(
            Opening::Data(
                Download {
                    data_len: announced - 4,
                    received: 0,
                    written: 0,
                    limit,
                    register: FRESH,
                    path: path.to_owned(),
                },
            ),
        )
    }
}

/// A wire failure names the file that it left short, where any byte reached it.
pub open spec fn file_named(error: RemoteError, path: Seq<char>, written: u64, failure: RemoteError) -> bool {
    match error {
        RemoteError::Protocol(message) if written > 0 => failure matches RemoteError::Protocol(text) && text@
            == short_text(message@, path, written as nat),
        _ => failure == error,
    }
}

/// Add the file that a failed read left behind to the failure that ended it.
pub fn short_file(error: RemoteError, path: &str, written: u64) -> (failure: RemoteError)
    ensures
        file_named(error, path@, written, failure),
{
    match error {
        RemoteError::Protocol(message) if written > 0 => RemoteError::protocol(
            short(message.as_str(), path, written),
        ),
        other => other,
    }
}

// ---------------------------------------------------------------------------
// The laws of the conversation.
// ---------------------------------------------------------------------------
/// What four bytes spell is the number that they were written from.
pub proof fn law_big_endian_reads_back(n: u32)
    ensures
        from_big_endian(big_endian(n)) == n,
{
    let high = n / 0x1_0000;
    assert(n / 0x100_0000 == high / 256 && n / 0x100_0000 < 256);
    assert((n / 256) / 256 == high);
}

proof fn lemma_bytes_of_a_number(bytes: Seq<u8>, n: u32)
    requires
        bytes.len() == 4,
        from_big_endian(bytes) == n,
    ensures
        bytes == big_endian(n),
{
    let (a, b, c, d) = (bytes[0] as int, bytes[1] as int, bytes[2] as int, bytes[3] as int);
    assert(n == 256 * (0x1_0000 * a + 256 * b + c) + d);
    assert(n / 256 == 0x1_0000 * a + 256 * b + c);
    assert(n / 0x1_0000 == 256 * a + b);
    assert(n / 0x100_0000 == a);
    assert(bytes =~= big_endian(n));
}

/// A token that fits its length field is sent whole and is read back as it was: the length is
/// the token's own, and what follows it is the token.
pub proof fn law_a_token_is_never_truncated(magic: u32, token: Seq<u8>)
    requires
        token.len() <= 255,
    ensures
        handshake_bytes(magic, token).len() == 6 + token.len(),
        from_big_endian(handshake_bytes(magic, token).take(4)) == magic,
        handshake_bytes(magic, token)[4] == VERSION,
        handshake_bytes(magic, token)[5] == token.len(),
        handshake_bytes(magic, token).skip(6) == token,
{
    law_big_endian_reads_back(magic);
    assert(handshake_bytes(magic, token).take(4) =~= big_endian(magic));
    assert(handshake_bytes(magic, token).skip(6) =~= token);
}

/// No command is waited for without end: every log or progress frame that is read counts
/// toward the budget, so no more of them than that are read.
pub proof fn law_an_endless_answer_is_given_up_on(
    client: Client,
    intermediates: u64,
    header: ResponseHeader,
    doing: Seq<char>,
    count: u64,
    frame: Frame,
)
    requires
        client.frame_read(intermediates, header, doing, Ok((count, frame))),
        !(frame is Final),
    ensures
        count == intermediates + 1,
        count <= client.intermediate_budget,
{
}

/// An answer is told from everything else: whatever is neither a log line nor a counter ends
/// the wait, and nothing else does.
pub proof fn law_only_a_final_frame_ends_the_wait(
    client: Client,
    intermediates: u64,
    header: ResponseHeader,
    doing: Seq<char>,
    count: u64,
    frame: Frame,
)
    requires
        client.frame_read(intermediates, header, doing, Ok((count, frame))),
    ensures
        frame is Final <==> !(header.status is Log || header.status is Progress),
        frame is Final ==> frame == Frame::Final(header) && count == intermediates,
        frame matches Frame::Log(length) ==> header.status is Log && length == header.payload_len,
        frame matches Frame::Progress(length) ==> header.status is Progress && length == header.payload_len,
        !(frame is Final) ==> count == intermediates + 1 && count <= client.intermediate_budget,
{
}

/// Is this what the piece that was due does to a read?
pub open spec fn piece_arrived(before: Download, piece: Seq<u8>, keep: int, after: Download) -> bool {
    &&& piece.len() == before.due()
    &&& after == (Download {
        received: (before.received + before.due()) as u64,
        written: (before.written + keep) as u64,
        register: crate::remote::crc::fed(before.register, piece),
        ..before
    })
    &&& after.wf()
    &&& 0 <= keep <= before.due()
    &&& keep == kept_of(before.received + before.due(), before.limit) - before.written
}

/// Each piece of a read that goes to the file continues what is in it: the file is always a
/// prefix of the read, of the length that the cap keeps.
pub proof fn law_the_file_is_a_prefix_of_the_read(
    before: Download,
    piece: Seq<u8>,
    keep: int,
    after: Download,
    data: Seq<u8>,
)
    requires
        before.wf(),
        before.received < before.data_len,
        data.len() == before.data_len,
        piece == data.subrange(before.received as int, before.received + before.due()),
        piece_arrived(before, piece, keep, after),
    ensures
        data.take(before.written as int) + piece.take(keep) == data.take(after.written as int),
{
    if keep > 0 {
        assert(before.written == before.received);
    }
    assert(data.take(before.written as int) + piece.take(keep) =~= data.take(after.written as int));
}

/// Everything that arrives is checked, what the cap drops included: the register is always the
/// one that all of it leads to.
pub proof fn law_everything_that_arrives_is_checked(
    before: Download,
    data: Seq<u8>,
    piece: Seq<u8>,
    keep: int,
    after: Download,
)
    requires
        before.wf(),
        before.received < before.data_len,
        before.has_read(data),
        piece_arrived(before, piece, keep, after),
    ensures
        after.has_read(data + piece),
{
    crate::remote::crc::law_pieces_make_no_difference(crate::remote::crc::FRESH, data, piece);
}

/// A read is taken for good exactly where what ends it is the CRC-32 of the bytes before it.
pub proof fn law_a_read_ends_in_its_check(download: Download, data: Seq<u8>, trailer: Seq<u8>)
    requires
        download.has_read(data),
        trailer.len() == 4,
    ensures
        download.accepts(trailer) <==> trailer == big_endian(crate::remote::crc::crc32_of(data)),
{
    law_big_endian_reads_back(download.check());
    if from_big_endian(trailer) == download.check() {
        lemma_bytes_of_a_number(trailer, download.check());
    }
}

/// A read that arrived whole leaves exactly what the cap keeps of it in the file.
pub proof fn law_a_complete_read_keeps_what_the_cap_keeps(download: Download)
    requires
        download.wf(),
        download.received == download.data_len,
    ensures
        download.written == kept_of(download.data_len as int, download.limit),
        download.limit is None ==> download.written == download.data_len,
{
}

/// Does a text hold another?
pub open spec fn holds(text: Seq<char>, part: Seq<char>) -> bool {
    exists|at: int| 0 <= at <= text.len() - part.len() && #[trigger] text.subrange(at, at + part.len()) == part
}

/// A text holds what it was put together from.
pub proof fn lemma_holds(front: Seq<char>, part: Seq<char>, back: Seq<char>)
    ensures
        holds(front + part + back, part),
{
    let at = front.len() as int;
    assert((front + part + back).subrange(at, at + part.len()) =~= part);
}

/// No read fails in silence: whatever stopped it, the failure names the daemon.
pub proof fn law_a_stopped_read_names_the_daemon(client: Client, stopped: Stopped, doing: Seq<char>)
    ensures
        holds(client.stop_text(stopped, doing), client.at.text()),
{
    let at = client.at.text();
    let text = client.stop_text(stopped, doing);
    match stopped {
        Stopped::Closed => {
            let back = " closed the connection during "@ + doing;
            lemma_holds("the daemon at "@, at, back);
            assert("the daemon at "@ + at + back =~= text);
        },
        Stopped::Dropped { got, want } => {
            let back = " dropped after "@ + crate::text::decimal(got as nat) + " of "@ + crate::text::decimal(
                want as nat,
            ) + " bytes during "@ + doing;
            lemma_holds("the connection to "@, at, back);
            assert("the connection to "@ + at + back =~= text);
        },
        Stopped::Failed { kind, reason } => {
            if is_expiry(kind) {
                let back = text.skip(at.len() as int);
                lemma_holds(Seq::empty(), at, back);
                assert(Seq::<char>::empty() + at + back =~= text);
            } else {
                let back = " failed during "@ + doing + ": "@ + reason@;
                lemma_holds("the connection to "@, at, back);
                assert("the connection to "@ + at + back =~= text);
            }
        },
    }
}

/// A daemon that dropped the connection is never reported as one that rejected the token.
pub proof fn law_a_drop_is_not_a_rejection(at: Seq<char>, doing: Seq<char>, message: Seq<char>)
    ensures
        closed_text(at, doing) != token_rejected_text(at, message),
        closed_text(at, doing) != token_rejected_silently_text(at),
        closed_text(at, doing) != token_not_read_text(at, message),
{
    reveal_strlit("the daemon at ");
    reveal_strlit(" closed the connection during ");
    reveal_strlit(" rejected the token: ");
    reveal_strlit(" rejected the token, and sent no reason");
    reveal_strlit(" answered the token handshake with \"");
    let here = 15 + at.len() as int;
    assert(closed_text(at, doing)[here] == 'c');
    assert(token_rejected_text(at, message)[here] == 'r');
    assert(token_rejected_silently_text(at)[here] == 'r');
    assert(token_not_read_text(at, message)[here] == 'a');
}

/// One piece of a read, how many of its first bytes went to the file, and the read after it.
pub struct Arrival {
    /// The piece.
    pub piece: Seq<u8>,
    /// How many of its bytes were kept.
    pub keep: int,
    /// The read after it.
    pub after: Download,
}

/// The read after these pieces.
pub open spec fn after_pieces(start: Download, arrivals: Seq<Arrival>) -> Download {
    if arrivals.len() == 0 {
        start
    } else {
        arrivals.last().after
    }
}

/// Are these the pieces of a read, one after the other?
pub open spec fn is_stream(start: Download, arrivals: Seq<Arrival>) -> bool
    decreases arrivals.len(),
{
    arrivals.len() > 0 ==> {
        let before = after_pieces(start, arrivals.drop_last());
        &&& is_stream(start, arrivals.drop_last())
        &&& before.received < before.data_len
        &&& piece_arrived(before, arrivals.last().piece, arrivals.last().keep, arrivals.last().after)
    }
}

/// Everything that arrived.
pub open spec fn all_pieces(arrivals: Seq<Arrival>) -> Seq<u8>
    decreases arrivals.len(),
{
    if arrivals.len() == 0 {
        Seq::empty()
    } else {
        all_pieces(arrivals.drop_last()) + arrivals.last().piece
    }
}

/// Everything that went to the file.
pub open spec fn all_kept(arrivals: Seq<Arrival>) -> Seq<u8>
    decreases arrivals.len(),
{
    if arrivals.len() == 0 {
        Seq::empty()
    } else {
        all_kept(arrivals.drop_last()) + arrivals.last().piece.take(arrivals.last().keep)
    }
}

/// A read is saved as it was sent. Whatever pieces it comes in, the file holds the first bytes of
/// it, all of them or as many as the cap says, in their order; and at its end it is accepted
/// exactly where the four bytes behind the data are the CRC-32 of all of the data.
pub proof fn law_a_read_is_saved_as_it_was_sent(
    start: Download,
    announced: int,
    limit: Option<u64>,
    arrivals: Seq<Arrival>,
)
    requires
        start.wf(),
        start.is_opened(announced, limit),
        is_stream(start, arrivals),
    ensures
        ({
            let end = after_pieces(start, arrivals);
            let data = all_pieces(arrivals);
            &&& end.wf()
            &&& end.data_len == announced - 4
            &&& end.limit == limit
            &&& end.path == start.path
            &&& end.received == data.len()
            &&& end.written == all_kept(arrivals).len()
            &&& all_kept(arrivals) == (match limit {
                Some(cap) if cap < data.len() => data.take(cap as int),
                _ => data,
            })
            &&& forall|trailer: Seq<u8>|
                trailer.len() == 4 ==> (#[trigger] end.accepts(trailer) <==> trailer == big_endian(
                    crate::remote::crc::crc32_of(data),
                ))
            &&& end.has_read(data)
        }),
    decreases arrivals.len(),
{
    let data = all_pieces(arrivals);
    let end = after_pieces(start, arrivals);
    if arrivals.len() > 0 {
        let shorter = arrivals.drop_last();
        let last = arrivals.last();
        law_a_read_is_saved_as_it_was_sent(start, announced, limit, shorter);
        let before = after_pieces(start, shorter);
        law_everything_that_arrives_is_checked(before, all_pieces(shorter), last.piece, last.keep, last.after);
        let kept = match limit {
            Some(cap) if cap < data.len() => data.take(cap as int),
            _ => data,
        };
        assert(all_kept(arrivals) =~= kept);
    }
    assert forall|trailer: Seq<u8>| trailer.len() == 4 implies (#[trigger] end.accepts(trailer) <==> trailer
        == big_endian(crate::remote::crc::crc32_of(data))) by {
        law_a_read_ends_in_its_check(end, data, trailer);
    }
}

/// A read goes on until all of it arrived, and no longer: what is due next is never more than is
/// missing, and nothing is due only when nothing is missing.
pub proof fn law_a_read_asks_for_what_is_missing(download: Download)
    requires
        download.wf(),
    ensures
        0 <= download.due() <= download.data_len - download.received,
        download.due() == 0 <==> download.received == download.data_len,
{
}

/// Only a daemon that says yes has taken the token: every other answer to the handshake is a
/// failure of the conversation.
pub proof fn law_only_a_yes_takes_the_token(
    client: Client,
    status: Status,
    message: Seq<char>,
    outcome: Result<(), RemoteError>,
)
    requires
        client.handshake_ended(status, message, outcome),
    ensures
        outcome is Ok <==> status is Done,
        outcome matches Err(error) ==> error is Protocol,
{
}

/// A refusal is the operation's, and exits as the operation's failure, unless the auth path
/// answered where no token was sent. Either way it names the daemon, and quotes what it said.
pub proof fn law_a_refusal_quotes_the_daemon(
    client: Client,
    doing: Seq<char>,
    message: Seq<char>,
    error: RemoteError,
)
    requires
        client.refusal_is(doing, message, error),
    ensures
        error is Protocol <==> !client.sent_token && "auth: "@.is_prefix_of(crate::render::all_shown(message, true)),
        !(error is Protocol) ==> error is Refused,
        holds(error.text(), client.at.text()),
        holds(error.text(), doing),
        holds(error.text(), crate::render::all_shown(message, true)),
{
    let at = client.at.text();
    let shown = crate::render::all_shown(message, true);
    let text = error.text();
    if error is Protocol {
        let reads = " requires a token and none was sent: it read "@;
        let answers = "'s command header as the handshake and answered \""@;
        let advises = "\". Pass --token with the secret the daemon was started with"@;
        lemma_holds("the daemon at "@, at, reads + doing + answers + shown + advises);
        assert("the daemon at "@ + at + (reads + doing + answers + shown + advises) =~= text);
        lemma_holds("the daemon at "@ + at + reads, doing, answers + shown + advises);
        assert("the daemon at "@ + at + reads + doing + (answers + shown + advises) =~= text);
        lemma_holds("the daemon at "@ + at + reads + doing + answers, shown, advises);
        assert("the daemon at "@ + at + reads + doing + answers + shown + advises =~= text);
    } else {
        let fails = " could not complete "@;
        let front = "the daemon at "@ + at + fails;
        let back = text.skip((front.len() + doing.len()) as int);
        assert(text.take((front.len() + doing.len()) as int) =~= front + doing);
        lemma_holds("the daemon at "@, at, fails + doing + back);
        assert("the daemon at "@ + at + (fails + doing + back) =~= text);
        lemma_holds(front, doing, back);
        assert(front + doing + back =~= text);
        if shown.len() == 0 {
            lemma_holds(Seq::empty(), shown, text);
            assert(Seq::<char>::empty() + shown + text =~= text);
        } else {
            lemma_holds(front + doing + ": "@, shown, Seq::empty());
            assert(front + doing + ": "@ + shown + Seq::empty() =~= text);
        }
    }
}

/// A counter whose line differs from the last one in a byte, whichever it is, is drawn: what the
/// screen says is what the daemon said last.
pub proof fn law_a_new_frame_is_drawn(
    before: Bar,
    between: Bar,
    after: Bar,
    stages: (u8, u8),
    percents: (u8, u8),
    messages: (Seq<char>, Seq<char>),
    phases: Seq<Phase>,
    written: (Seq<char>, Seq<char>, Seq<char>),
    front: Seq<u8>,
    bytes: (u8, u8),
    back: Seq<u8>,
)
    requires
        wire_drawn(before, between, percents.0, stages.0, messages.0, phases, written.0, written.1),
        wire_drawn(between, after, percents.1, stages.1, messages.1, phases, written.1, written.2),
        bytes.0 != bytes.1,
        vstd::utf8::encode_utf8(
            crate::render::wire_text(percents.0, crate::render::phase_label(phases, stages.0), messages.0),
        ) == front + seq![bytes.0] + back,
        vstd::utf8::encode_utf8(
            crate::render::wire_text(percents.1, crate::render::phase_label(phases, stages.1), messages.1),
        ) == front + seq![bytes.1] + back,
    ensures
        written.2 == written.1 + crate::render::drawing(
            between.width(),
            crate::render::wire_text(percents.1, crate::render::phase_label(phases, stages.1), messages.1),
        ),
{
    crate::render::law_a_changed_line_is_noticed(front, bytes.0, bytes.1, back);
}

} // verus!
