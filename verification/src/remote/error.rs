//! Why a remote run stopped, and where the daemon is that it ran against.
//!
//! Which class a failure belongs to decides its exit code; the wording is that of the place
//! which had the values.
use vstd::prelude::*;
use vstd::string::*;

use crate::exit::OpClass;
use crate::model::{Error, FileError, IoKind};
use crate::run::Failure;
use crate::text::{chars_of, push_decimal};

verus! {

/// Where the daemon is, for the messages that have to name it.
#[derive(Debug, Clone, PartialEq, Eq)]
pub struct Address {
    /// `--host`, as typed.
    pub host: String,
    /// `--port`.
    pub port: u16,
}

impl Address {
    /// The address as it is written everywhere: an IPv6 literal keeps its brackets.
    pub open spec fn text(self) -> Seq<char> {
        if self.host@.contains(':') {
            "["@ + self.host@ + "]:"@ + crate::text::decimal(self.port as nat)
        } else {
            self.host@ + ":"@ + crate::text::decimal(self.port as nat)
        }
    }

    /// The address `--host` and `--port` name.
    pub fn new(host: String, port: u16) -> (address: Self)
        ensures
            address.host == host,
            address.port == port,
    {
        Address { host, port }
    }

    /// The host as the user typed it.
    pub fn host(&self) -> (host: &str)
        ensures
            host@ == self.host@,
    {
        self.host.as_str()
    }

    /// The port.
    pub fn port(&self) -> (port: u16)
        ensures
            port == self.port,
    {
        self.port
    }

    /// The address as it is written everywhere.
    pub fn display(&self) -> (text: String)
        ensures
            text@ == self.text(),
    {
        if has_colon(self.host.as_str()) {
            let mut text = "[".to_owned();
            text.append(self.host.as_str());
            text.append("]:");
            push_decimal(&mut text, self.port as u64);
            text
        } else {
            let mut text = self.host.clone();
            text.append(":");
            push_decimal(&mut text, self.port as u64);
            text
        }
    }

    /// The same address again.
    pub(crate) fn copy(&self) -> (copy: Address)
        ensures
            copy == *self,
    {
        Address { host: self.host.clone(), port: self.port }
    }
}

fn has_colon(text: &str) -> (yes: bool)
    ensures
        yes == text@.contains(':'),
{
    let chars = chars_of(text);
    let mut at: usize = 0;
    while at < chars.len()
        invariant
            at <= chars.len(),
            chars@ == text@,
            forall|i: int| 0 <= i < at ==> chars[i] != ':',
        decreases chars.len() - at,
    {
        if chars[at] == ':' {
            return true;
        }
        at += 1;
    }
    false
}

/// A remote run that stopped, and why.
#[derive(Debug, Clone, PartialEq, Eq)]
pub enum RemoteError {
    /// The conversation with the daemon failed.
    Protocol(String),
    /// The daemon attempted the operation and could not complete it.
    Refused(String),
    /// This client refused, about the device rather than about the wire.
    Refusal(String),
    /// A local file failed.
    File(FileError),
}

impl RemoteError {
    /// The sentence of a failure.
    pub open spec fn text(self) -> Seq<char> {
        match self {
            RemoteError::Protocol(message) => message@,
            RemoteError::Refused(message) => message@,
            RemoteError::Refusal(message) => message@,
            RemoteError::File(file) => file.message@,
        }
    }

    /// Is `failure` this one, of an operation of this class?
    pub open spec fn fails_as(self, class: OpClass, failure: Failure) -> bool {
        &&& failure.stated matches Some(stated) && stated@ == self.text()
        &&& match self {
            RemoteError::Protocol(message) => failure.class is Remote && failure.error == Error::Protocol(message),
            RemoteError::Refused(message) => failure.class == class && failure.error == Error::Protocol(message),
            RemoteError::Refusal(message) => failure.class == class && failure.error == Error::Protocol(message),
            RemoteError::File(file) => failure.class == class && failure.error == Error::Io(file),
        }
    }

    /// A wire-level failure.
    pub fn protocol(message: String) -> (error: Self)
        ensures
            error == RemoteError::Protocol(message),
    {
        RemoteError::Protocol(message)
    }

    /// This client's own refusal about the device.
    pub fn refusal(message: String) -> (error: Self)
        ensures
            error == RemoteError::Refusal(message),
    {
        RemoteError::Refusal(message)
    }

    /// The daemon's own refusal, with what was being attempted. A daemon that gave no
    /// reason is said to have given none.
    pub fn refused(at: &Address, doing: &str, message: &str) -> (error: Self)
        ensures
            error matches RemoteError::Refused(text) && text@ == refusal_text(at.text(), doing@, message@),
    {
        let mut text = "the daemon at ".to_owned();
        let place = at.display();
        text.append(place.as_str());
        text.append(" could not complete ");
        text.append(doing);
        if message.is_empty() {
            text.append(", and sent no reason with the refusal");
        } else {
            text.append(": ");
            text.append(message);
        }
        RemoteError::Refused(text)
    }

    /// A local file failure, with what was being attempted in front of what it says.
    pub fn file(what: &str, kind: IoKind, reason: &str) -> (error: Self)
        ensures
            error matches RemoteError::File(file) && file.kind == kind && file.message@ == what@ + ": "@ + reason@,
    {
        let mut message = what.to_owned();
        message.append(": ");
        message.append(reason);
        RemoteError::File(FileError { kind, message })
    }

    /// Pair this with the operation that was running.
    ///
    /// A wire failure is the protocol's whatever was running, and a file failure the
    /// file's; the other two belong to the operation.
    pub fn failure(self, class: OpClass) -> (failure: Failure)
        ensures
            self.fails_as(class, failure),
    {
        match self {
            RemoteError::Protocol(message) => {
                let stated = message.clone();
                Failure::stating(Error::Protocol(message), OpClass::Remote, stated)
            },
            RemoteError::Refused(message) => {
                let stated = message.clone();
                Failure::stating(Error::Protocol(message), class, stated)
            },
            RemoteError::Refusal(message) => {
                let stated = message.clone();
                Failure::stating(Error::Protocol(message), class, stated)
            },
            RemoteError::File(file) => {
                let stated = file.message.clone();
                Failure::stating(Error::Io(file), class, stated)
            },
        }
    }

    /// The sentence of the failure.
    pub fn message(&self) -> (message: String)
        ensures
            message@ == self.text(),
    {
        match self {
            RemoteError::Protocol(message) => message.clone(),
            RemoteError::Refused(message) => message.clone(),
            RemoteError::Refusal(message) => message.clone(),
            RemoteError::File(file) => file.message.clone(),
        }
    }

    /// The file failure behind this one, where a file failed.
    pub fn source(&self) -> (source: Option<&FileError>)
        ensures
            match *self {
                RemoteError::File(file) => source == Some(&file),
                _ => source is None,
            },
    {
        match self {
            RemoteError::File(file) => Some(file),
            _ => None,
        }
    }
}

/// The sentence of a daemon's refusal.
pub open spec fn refusal_text(at: Seq<char>, doing: Seq<char>, message: Seq<char>) -> Seq<char> {
    "the daemon at "@ + at + " could not complete "@ + doing + if message.len() == 0 {
        ", and sent no reason with the refusal"@
    } else {
        ": "@ + message
    }
}

/// The code a failure exits with is decided by what failed: the wire, a file, or the
/// operation, and it is the one that the same fault has without a daemon.
pub proof fn law_a_daemon_changes_no_exit_code(error: RemoteError, class: OpClass, failure: Failure)
    requires
        error.fails_as(class, failure),
    ensures
        failure.code() == (match error {
            RemoteError::Protocol(_) => crate::exit::PROTOCOL,
            RemoteError::Refused(_) => crate::exit::class_code(class),
            RemoteError::Refusal(_) => crate::exit::class_code(class),
            RemoteError::File(_) => crate::exit::FILE,
        }),
{
}

/// One address that was tried, and what it said.
#[derive(Debug, Clone, PartialEq, Eq)]
pub struct Attempt {
    /// The address, with its port.
    pub address: String,
    /// Why it did not connect.
    pub reason: String,
}

/// Every attempt on a line of its own.
pub open spec fn attempt_lines(attempts: Seq<Attempt>) -> Seq<char>
    decreases attempts.len(),
{
    if attempts.len() == 0 {
        Seq::empty()
    } else {
        attempt_lines(attempts.drop_last()) + "\n  "@ + attempts.last().address@ + ": "@ + attempts.last().reason@
    }
}

/// What is said when no address connected.
pub open spec fn unreachable_text(at: Seq<char>, attempts: Seq<Attempt>) -> Seq<char> {
    "cannot connect to "@ + at + "; every address it resolves to was tried:"@ + attempt_lines(attempts)
}

/// Every resolved address failed: say which, and what each one said.
pub fn connect_failed(at: &Address, attempts: &Vec<Attempt>) -> (error: RemoteError)
    ensures
        error matches RemoteError::Protocol(message) && message@ == unreachable_text(at.text(), attempts@),
{
    let mut message = "cannot connect to ".to_owned();
    let place = at.display();
    message.append(place.as_str());
    message.append("; every address it resolves to was tried:");
    let ghost head = message@;
    let mut tried: usize = 0;
    assert(attempts@.take(0) =~= Seq::empty());
    assert(message@ =~= head + attempt_lines(attempts@.take(0)));
    while tried < attempts.len()
        invariant
            tried <= attempts.len(),
            message@ == head + attempt_lines(attempts@.take(tried as int)),
        decreases attempts.len() - tried,
    {
        message.append("\n  ");
        message.append(attempts[tried].address.as_str());
        message.append(": ");
        message.append(attempts[tried].reason.as_str());
        proof {
            assert(attempts@.take(tried + 1).drop_last() =~= attempts@.take(tried as int));
            assert(message@ =~= head + attempt_lines(attempts@.take(tried + 1)));
        }
        tried += 1;
    }
    assert(attempts@.take(tried as int) =~= attempts@);
    RemoteError::protocol(message)
}

} // verus!
