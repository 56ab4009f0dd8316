//! The argument surface: what each value may be, and what a set of flags asks for.
//!
//! [`Cli::into_plan`] turns the flags into a [`Plan`]. Each flag either does something or
//! is refused by name; none is accepted and then ignored.
use vstd::prelude::*;
use vstd::string::*;

use crate::model::{AltSel, MAX_ALTS, Variant};
use crate::plan::{
    Action, BootstrapTrigger, Images, Plan, PlanError, Remote, Target, any_needs_the_gadget, any_takes_an_alt,
};
use crate::text::{chars_of, join, only_digits, parse_number, push_decimal, sort_texts, text_between, text_of};

verus! {

/// The port a daemon listens on unless it was told otherwise.
pub const DEFAULT_PORT: u16 = 5050;

/// The flags, as they were given.
#[derive(Debug, Clone, PartialEq, Eq)]
pub struct Cli {
    /// `-l`: list every Ingenic device on the bus.
    pub list: bool,
    /// `-b`: bootstrap a bootrom into U-Boot's DFU mode.
    pub bootstrap: bool,
    /// `-w`: write this image.
    pub write: Option<String>,
    /// `-r`: read the flash into this file.
    pub read: Option<String>,
    /// `--verify`: after `-w`, read the flash back and compare.
    pub verify: bool,
    /// `--erase`: erase the whole flash.
    pub erase: bool,
    /// `--reboot`: reboot the SoC when everything else is done.
    pub reboot: bool,
    /// `--diag`: dump the eFuse state of a bootrom.
    pub diag: bool,
    /// `-i`: which device to operate on, as `-l` numbers them.
    pub index: u8,
    /// `--alt`: the alt-setting to target.
    pub alt: Option<AltSel>,
    /// `--cpu`: the SoC variant, instead of detecting it.
    pub cpu: Option<Variant>,
    /// `--spl`: a stage-1 image in place of the tree's.
    pub spl: Option<String>,
    /// `--uboot`: a U-Boot image in place of the tree's.
    pub uboot: Option<String>,
    /// `--firmware-dir`: the firmware root.
    pub firmware_dir: Option<String>,
    /// `--size`: stop a read after this many bytes.
    pub size: Option<u64>,
    /// `--host`: operate through the daemon at this address.
    pub host: Option<String>,
    /// `--port`: the daemon's port. Whether it was given matters, so it has no default here.
    pub port: Option<u16>,
    /// `--token`: the daemon's secret.
    pub token: Option<String>,
    /// `--wait`: wait for a device to appear.
    pub wait: bool,
    /// `-d`: verbose diagnostics.
    pub debug: bool,
}

impl Default for Cli {
    fn default() -> (cli: Self)
        ensures
            !cli.list && !cli.bootstrap && !cli.verify && !cli.erase && !cli.reboot && !cli.diag && !cli.wait
                && !cli.debug,
            cli.write is None && cli.read is None && cli.spl is None && cli.uboot is None && cli.firmware_dir is None,
            cli.index == 0 && cli.alt is None && cli.cpu is None && cli.size is None,
            cli.host is None && cli.port is None && cli.token is None,
    {
        Cli {
            list: false,
            bootstrap: false,
            write: None,
            read: None,
            verify: false,
            erase: false,
            reboot: false,
            diag: false,
            index: 0,
            alt: None,
            cpu: None,
            spl: None,
            uboot: None,
            firmware_dir: None,
            size: None,
            host: None,
            port: None,
            token: None,
            wait: false,
            debug: false,
        }
    }
}

// ---------------------------------------------------------------------------
// The values.
// ---------------------------------------------------------------------------
/// The index that a text spells, as `-i` takes it.
pub open spec fn index_value(text: Seq<char>) -> Option<u8> {
    match crate::text::number(text) {
        Some(n) if n <= 255 => Some(n as u8),
        _ => None,
    }
}

/// `-i`: a device index.
///
/// The number goes on a wire whose field is one byte, so a larger one is refused rather than
/// folded onto another device.
///
/// # Errors
/// The range, for anything that is not a number in it.
pub fn parse_index(raw: &str) -> (index: Result<u8, String>)
    ensures
        index matches Ok(index) ==> index_value(raw@) == Some(index),
        index is Err ==> index_value(raw@) is None,
        match crate::text::number(raw@) {
            Some(n) if n <= 255 => index == Ok::<u8, String>(n as u8),
            _ => index matches Err(message) && message@ == "device index must be 0-255, got `"@ + raw@
                + "` (the number `-l` shows)"@,
        },
{
    match parse_number(raw, 255) {
        Some(value) => Ok(value as u8),
        None => {
            let mut message = "device index must be 0-255, got `".to_owned();
            message.append(raw);
            message.append("` (the number `-l` shows)");
            Err(message)
        },
    }
}

/// What `--alt` makes of a text: digits are a number below [`MAX_ALTS`], anything else is a
/// name of at most 255 bytes.
pub open spec fn alt_value(raw: &str, alt: Result<AltSel, String>) -> bool {
    if crate::text::all_digits(raw@) {
        let n = crate::text::digits_value(raw@);
        if n < MAX_ALTS {
            alt == Ok::<AltSel, String>(AltSel::Index(n as u8))
        } else if n > 255 {
            alt matches Err(message) && message@ == "alt number must be 0-31, got `"@ + raw@ + "`"@
        } else {
            alt matches Err(message) && message@ == "alt number must be 0-31, got `"@ + raw@
                + "` (parses at most 32 alts)"@
        }
    } else if raw@.len() == 0 {
        alt matches Err(message) && message@
            == "alt name is empty; pass a name or a number, or use -l to list them"@
    } else if raw.spec_bytes().len() > 255 {
        alt matches Err(message) && message@ == "alt name is "@ + crate::text::decimal(raw.spec_bytes().len())
            + " bytes; the wire's length field is one byte, so 255 is the maximum"@
    } else {
        alt matches Ok(AltSel::Name(name)) && name@ == raw@
    }
}

/// `--alt`: a name or a decimal number, both bounded.
///
/// # Errors
/// The range for a number past it; the length for a name that no one-byte length field can
/// carry; and the empty text.
pub fn parse_alt(raw: &str) -> (alt: Result<AltSel, String>)
    ensures
        alt_value(raw, alt),
{
    if only_digits(raw) {
        assert(crate::text::unsigned(raw@) =~= raw@) by {
            assert(crate::text::is_digit(raw@[0]));
        }
        return match parse_number(raw, 255) {
            None => {
                let mut message = "alt number must be 0-31, got `".to_owned();
                message.append(raw);
                message.append("`");
                Err(message)
            },
            Some(value) => {
                if value >= MAX_ALTS as u64 {
                    let mut message = "alt number must be 0-31, got `".to_owned();
                    message.append(raw);
                    message.append("` (parses at most 32 alts)");
                    Err(message)
                } else {
                    Ok(AltSel::Index(value as u8))
                }
            },
        };
    }
    if raw.is_empty() {
        return Err("alt name is empty; pass a name or a number, or use -l to list them".to_owned());
    }
    let length = raw.as_bytes().len();
    if length > 255 {
        let mut message = "alt name is ".to_owned();
        push_decimal(&mut message, length as u64);
        message.append(" bytes; the wire's length field is one byte, so 255 is the maximum");
        return Err(message);
    }
    Ok(AltSel::Name(raw.to_owned()))
}

/// `--cpu`: the variant that a spelling resolves to.
///
/// `resolved` is what the table of variants makes of `raw`, and `loaders` is every loader
/// directory in that table.
///
/// # Errors
/// Every accepted name, in order, for a spelling that resolves to nothing.
pub fn parse_cpu(raw: &str, resolved: Option<Variant>, loaders: &Vec<String>) -> (variant: Result<Variant, String>)
    ensures
        match resolved {
            Some(found) => variant == Ok::<Variant, String>(found),
            None => variant matches Err(message) && exists|known: Seq<Seq<char>>|
                {
                    &&& crate::text::sorted(known)
                    &&& known.to_multiset() == crate::text::texts(loaders@).to_multiset()
                    &&& message@ == "unknown SoC variant `"@ + raw@ + "`; accepted: "@
                        + #[trigger] crate::text::joined(known, ", "@)
                        + " (bare family names such as t31 and t40 work too)"@
                },
        },
{
    match resolved {
        Some(found) => Ok(found),
        None => {
            let known = sort_texts(loaders);
            let listed = join(&known, ", ");
            let mut message = "unknown SoC variant `".to_owned();
            message.append(raw);
            message.append("`; accepted: ");
            message.append(listed.as_str());
            message.append(" (bare family names such as t31 and t40 work too)");
            Err(message)
        },
    }
}

/// The cap that a text spells, as `--size` takes it.
pub open spec fn size_value(text: Seq<char>) -> Option<u64> {
    match crate::text::number(text) {
        Some(n) if 1 <= n <= u64::MAX => Some(n as u64),
        _ => None,
    }
}

/// `--size`: a byte cap on `-r`, never zero.
///
/// # Errors
/// For anything that is not a number of bytes, and for zero, which would read nothing.
pub fn parse_size(raw: &str) -> (size: Result<u64, String>)
    ensures
        size matches Ok(size) ==> size_value(raw@) == Some(size),
        size is Err ==> size_value(raw@) is None,
        match crate::text::number(raw@) {
            Some(n) if n <= u64::MAX => if n == 0 {
                size matches Err(message) && message@
                    == "--size 0 would read nothing; leave it out to read the whole alt"@
            } else {
                size == Ok::<u64, String>(n as u64)
            },
            _ => size matches Err(message) && message@ == "--size takes a number of bytes, got `"@ + raw@ + "`"@,
        },
{
    match parse_number(raw, u64::MAX) {
        None => {
            let mut message = "--size takes a number of bytes, got `".to_owned();
            message.append(raw);
            message.append("`");
            Err(message)
        },
        Some(size) => {
            if size == 0 {
                Err("--size 0 would read nothing; leave it out to read the whole alt".to_owned())
            } else {
                Ok(size)
            }
        },
    }
}

/// `--port`: a port, never zero.
///
/// # Errors
/// For anything that is not a port number, and for zero, which names none.
pub fn parse_port(raw: &str) -> (port: Result<u16, String>)
    ensures
        port matches Ok(port) ==> port_value(raw@) == Some(port),
        port is Err ==> port_value(raw@) is None,
        match crate::text::number(raw@) {
            Some(n) if n <= 65535 => if n == 0 {
                port matches Err(message) && message@ == "--port 0 asks the OS to choose; name the daemon's port"@
            } else {
                port == Ok::<u16, String>(n as u16)
            },
            _ => port matches Err(message) && message@ == "--port takes a number in 1-65535, got `"@ + raw@ + "`"@,
        },
{
    match parse_number(raw, 65535) {
        None => {
            let mut message = "--port takes a number in 1-65535, got `".to_owned();
            message.append(raw);
            message.append("`");
            Err(message)
        },
        Some(port) => {
            if port == 0 {
                Err("--port 0 asks the OS to choose; name the daemon's port".to_owned())
            } else {
                Ok(port as u16)
            }
        },
    }
}

/// The port that a text spells, as `--port` takes it.
pub open spec fn port_value(text: Seq<char>) -> Option<u16> {
    match crate::text::number(text) {
        Some(n) if 1 <= n <= 65535 => Some(n as u16),
        _ => None,
    }
}

/// Is this where the one colon of a text is?
pub open spec fn is_only_colon(text: Seq<char>, at: int) -> bool {
    &&& 0 <= at < text.len()
    &&& text[at] == ':'
    &&& forall|i: int| 0 <= i < text.len() && i != at ==> #[trigger] text[i] != ':'
}

/// The name and the port of a `--host` that carries both: one colon, something before it, and
/// a port behind it. An IPv6 address has more than one colon, and is a name as it stands.
pub open spec fn host_and_port(text: Seq<char>) -> Option<(Seq<char>, u16)> {
    let at = choose|at: int| is_only_colon(text, at);
    if is_only_colon(text, at) && at > 0 {
        match port_value(text.skip(at + 1)) {
            Some(port) => Some((text.take(at), port)),
            None => None,
        }
    } else {
        None
    }
}

/// `--host`: the name and the port, where it carries both.
pub fn split_host(text: &str) -> (split: Option<(String, u16)>)
    ensures
        match split {
            Some(split) => host_and_port(text@) == Some((split.0@, split.1)),
            None => host_and_port(text@) is None,
        },
{
    let chars = chars_of(text);
    let mut at: usize = 0;
    while at < chars.len() && chars[at] != ':'
        invariant
            at <= chars.len(),
            forall|i: int| 0 <= i < at ==> #[trigger] chars[i] != ':',
        decreases chars.len() - at,
    {
        at += 1;
    }
    if at == 0 || at == chars.len() {
        return None;
    }
    let mut next: usize = at + 1;
    while next < chars.len()
        invariant
            at < next <= chars.len(),
            chars@ == text@,
            chars[at as int] == ':',
            forall|i: int| 0 <= i < next && i != at ==> #[trigger] chars[i] != ':',
        decreases chars.len() - next,
    {
        if chars[next] == ':' {
            assert forall|one: int| !is_only_colon(text@, one) by {
                if is_only_colon(text@, one) {
                    assert(text@[at as int] == ':' && text@[next as int] == ':');
                }
            }
            return None;
        }
        next += 1;
    }
    assert(is_only_colon(text@, at as int));
    assert forall|one: int| is_only_colon(text@, one) implies one == at by {
        assert(text@[one] == ':');
    }
    let behind = text_between(&chars, at + 1, chars.len());
    assert(behind@ =~= text@.skip(at + 1));
    match parse_number(behind.as_str(), 65535) {
        Some(port) => {
            if port == 0 {
                None
            } else {
                Some((text_of(&chars, at), port as u16))
            }
        },
        None => None,
    }
}

/// A host and its port, put together, come apart again.
pub proof fn law_a_host_may_carry_its_port(host: Seq<char>, port: u16)
    requires
        host.len() > 0,
        !host.contains(':'),
        port > 0,
    ensures
        host_and_port(host + ":"@ + crate::text::decimal(port as nat)) == Some((host, port)),
{
    reveal_strlit(":");
    let digits = crate::text::decimal(port as nat);
    let text = host + ":"@ + digits;
    crate::text::lemma_decimal_is_a_number(port as nat);
    assert(text[host.len() as int] == ':');
    assert forall|i: int| 0 <= i < text.len() && i != host.len() implies #[trigger] text[i] != ':' by {
        if i < host.len() {
            assert(text[i] == host[i]);
        } else {
            assert(text[i] == digits[i - host.len() - 1]);
        }
    }
    assert(is_only_colon(text, host.len() as int));
    assert forall|one: int| is_only_colon(text, one) implies one == host.len() by {
        assert(text[one] == ':');
    }
    assert(text.take(host.len() as int) =~= host);
    assert(text.skip(host.len() as int + 1) =~= digits);
}

/// A host that is not a name, a colon and a port is taken as it stands: one without a colon, and
/// one with several, as an IPv6 address has.
pub proof fn law_any_other_host_is_whole(host: Seq<char>)
    requires
        forall|at: int| !is_only_colon(host, at),
    ensures
        host_and_port(host) is None,
{
}

// ---------------------------------------------------------------------------
// The combinations.
// ---------------------------------------------------------------------------
/// The action, if it was asked for.
pub open spec fn asked(yes: bool, action: Action) -> Seq<Action> {
    if yes {
        seq![action]
    } else {
        Seq::empty()
    }
}

proof fn lemma_regroup(
    list: Seq<Action>,
    diag: Seq<Action>,
    erase: Seq<Action>,
    write: Seq<Action>,
    verify: Seq<Action>,
    read: Seq<Action>,
    reboot: Seq<Action>,
)
    ensures
        list + diag + erase + write + verify + read + reboot == (list + diag) + (erase + write + verify + read
            + reboot),
{
    assert(list + diag + erase + write + verify + read + reboot =~= (list + diag) + (erase + write + verify + read
        + reboot));
}

/// One more operation, where it was asked for: what that does to a list of them.
proof fn lemma_asked(before: Seq<Action>, yes: bool, action: Action)
    ensures
        before.len() <= (before + asked(yes, action)).len(),
        !yes ==> before + asked(yes, action) == before,
        yes ==> before + asked(yes, action) == before.push(action),
{
    assert(!yes ==> before + asked(yes, action) =~= before);
    assert(yes ==> before + asked(yes, action) =~= before.push(action));
}

/// What is in the list of operations that are not reports.
proof fn lemma_works(works: Seq<Action>, erase: bool, write: bool, verify: bool, read: bool, reboot: bool)
    requires
        verify ==> write,
        works == asked(erase, Action::Erase) + asked(write, Action::Write) + asked(verify, Action::Verify) + asked(
            read,
            Action::Read,
        ) + asked(reboot, Action::Reboot),
    ensures
        forall|i: int| 0 <= i < works.len() ==> #[trigger] works[i].on_the_gadget(),
        works.len() > 0 <==> erase || write || read || reboot,
        works.len() > 0 ==> works[0] == (if erase {
            Action::Erase
        } else if write {
            Action::Write
        } else if read {
            Action::Read
        } else {
            Action::Reboot
        }),
        (exists|i: int| 0 <= i < works.len() && #[trigger] works[i].on_an_alt()) <==> write || read,
{
    let one = asked(erase, Action::Erase);
    let two = one + asked(write, Action::Write);
    let three = two + asked(verify, Action::Verify);
    let four = three + asked(read, Action::Read);
    lemma_asked(one, write, Action::Write);
    lemma_asked(two, verify, Action::Verify);
    lemma_asked(three, read, Action::Read);
    lemma_asked(four, reboot, Action::Reboot);
    if write {
        assert(works[one.len() as int] == Action::Write);
        assert(works[one.len() as int].on_an_alt());
    }
    if read {
        assert(works[three.len() as int] == Action::Read);
        assert(works[three.len() as int].on_an_alt());
    }
    if !write && !read {
        assert forall|i: int| 0 <= i < works.len() implies !#[trigger] works[i].on_an_alt() by {
            assert(works[i] is Erase || works[i] is Reboot);
        }
    }
}

/// Is there a bootstrap among these actions?
pub open spec fn any_bootstrap_of(actions: Seq<Action>) -> bool {
    exists|i: int| 0 <= i < actions.len() && #[trigger] actions[i] is Bootstrap
}

fn any_bootstrap(actions: &Vec<Action>) -> (any: bool)
    ensures
        any == any_bootstrap_of(actions@),
{
    let mut at: usize = 0;
    while at < actions.len()
        invariant
            at <= actions.len(),
            forall|i: int| 0 <= i < at ==> !(#[trigger] actions[i] is Bootstrap),
        decreases actions.len() - at,
    {
        if matches!(actions[at], Action::Bootstrap(_)) {
            return true;
        }
        at += 1;
    }
    false
}

/// Does an action only report?
pub open spec fn is_report(action: Action) -> bool {
    action is List || action is Diag
}

/// The first of these actions that is not a report.
pub open spec fn first_work_of(actions: Seq<Action>) -> Option<Action>
    decreases actions.len(),
{
    if actions.len() == 0 {
        None
    } else if !is_report(actions[0]) {
        Some(actions[0])
    } else {
        first_work_of(actions.drop_first())
    }
}

/// Behind reports, the first work is what comes next.
proof fn lemma_first_work(reports: Seq<Action>, rest: Seq<Action>)
    requires
        forall|i: int| 0 <= i < reports.len() ==> is_report(#[trigger] reports[i]),
    ensures
        first_work_of(reports + rest) == first_work_of(rest),
    decreases reports.len(),
{
    if reports.len() == 0 {
        assert(reports + rest =~= rest);
    } else {
        assert((reports + rest)[0] == reports[0]);
        assert((reports + rest).drop_first() =~= reports.drop_first() + rest);
        lemma_first_work(reports.drop_first(), rest);
    }
}

fn first_work(actions: &Vec<Action>) -> (work: Option<Action>)
    ensures
        work == first_work_of(actions@),
{
    let mut at: usize = 0;
    assert(actions@.skip(0) =~= actions@);
    while at < actions.len()
        invariant
            at <= actions.len(),
            first_work_of(actions@) == first_work_of(actions@.skip(at as int)),
        decreases actions.len() - at,
    {
        if !matches!(actions[at], Action::Diag | Action::List) {
            return Some(actions[at]);
        }
        assert(actions@.skip(at as int).drop_first() =~= actions@.skip(at + 1));
        at += 1;
    }
    None
}

/// Add an action where it was asked for.
fn push_asked(actions: &mut Vec<Action>, yes: bool, action: Action)
    ensures
        final(actions)@ == old(actions)@ + asked(yes, action),
{
    if yes {
        actions.push(action);
    }
    assert(actions@ =~= old(actions)@ + asked(yes, action));
}

impl Cli {
    /// The operations that the flags name, before any bootstrap.
    pub open spec fn operations(self) -> Seq<Action> {
        asked(self.list, Action::List) + asked(self.diag, Action::Diag) + asked(self.erase, Action::Erase) + asked(
            self.write is Some,
            Action::Write,
        ) + asked(self.write is Some && self.verify, Action::Verify) + asked(self.read is Some, Action::Read)
            + asked(self.reboot, Action::Reboot)
    }

    /// Does any of those operations need the gadget?
    pub open spec fn transfers(self) -> bool {
        self.erase || self.write is Some || self.read is Some || self.reboot
    }

    /// The bootstrap that the flags ask for: `-b`, a loader pair on its own, or the one that
    /// every operation on the gadget needs first.
    pub open spec fn bootstrap_action(self) -> Option<Action> {
        if self.bootstrap {
            Some(Action::Bootstrap(BootstrapTrigger::Requested))
        } else if self.operations().len() == 0 && self.spl is Some && self.uboot is Some {
            Some(Action::Bootstrap(BootstrapTrigger::Requested))
        } else if self.transfers() {
            Some(Action::Bootstrap(BootstrapTrigger::Auto))
        } else {
            None
        }
    }

    /// Everything the flags ask for.
    pub open spec fn requested(self) -> Seq<Action> {
        match self.bootstrap_action() {
            Some(action) => self.operations().push(action),
            None => self.operations(),
        }
    }

    /// The first bootstrap option that was given.
    pub open spec fn bootstrap_option(self) -> Option<Seq<char>> {
        if self.cpu is Some {
            Some("--cpu"@)
        } else if self.spl is Some {
            Some("--spl"@)
        } else if self.uboot is Some {
            Some("--uboot"@)
        } else if self.firmware_dir is Some {
            Some("--firmware-dir"@)
        } else {
            None
        }
    }

    /// The first thing beside `--diag` that is not a report.
    pub open spec fn beside_diag(self) -> Option<Action> {
        if self.erase {
            Some(Action::Erase)
        } else if self.write is Some {
            Some(Action::Write)
        } else if self.read is Some {
            Some(Action::Read)
        } else if self.reboot {
            Some(Action::Reboot)
        } else {
            self.bootstrap_action()
        }
    }

    /// Is `error` how the connection flags are refused?
    pub open spec fn connection_refused(self, error: PlanError) -> bool {
        if self.host is None && self.port is Some {
            error matches PlanError::RemoteOptionWithoutHost { option } && option@ == "--port"@
        } else if self.host is None && self.token is Some {
            error matches PlanError::RemoteOptionWithoutHost { option } && option@ == "--token"@
        } else if self.host is Some && self.firmware_dir is Some {
            error matches PlanError::RemoteOptionIsLocal { option } && option@ == "--firmware-dir"@
        } else {
            false
        }
    }

    /// Do the connection flags go together?
    pub open spec fn connection_fits(self) -> bool {
        if self.host is None {
            self.port is None && self.token is None
        } else {
            self.firmware_dir is None
        }
    }

    /// Is this the daemon that the flags name? `--port` wins over a port that `--host` carries.
    pub open spec fn daemon(self, remote: Option<Remote>) -> bool {
        match (self.host, remote) {
            (None, None) => true,
            (Some(host), Some(remote)) => {
                &&& remote.host@ == match host_and_port(host@) {
                    Some((name, _)) => name,
                    None => host@,
                }
                &&& remote.port == match (self.port, host_and_port(host@)) {
                    (Some(port), _) => port,
                    (None, Some((_, port))) => port,
                    (None, None) => DEFAULT_PORT,
                }
                &&& remote.token == self.token
            },
            _ => false,
        }
    }

    /// Is `error` how the operations are refused?
    pub open spec fn operations_refused(self, error: PlanError) -> bool {
        if self.write is None && self.verify {
            error is VerifyWithoutWrite
        } else if self.read is None && self.size is Some {
            error is SizeWithoutRead
        } else if self.alt is Some && self.write is None && self.read is None {
            error is AltWithoutTransfer
        } else if self.bootstrap_action() is None && self.bootstrap_option() is Some {
            error matches PlanError::BootstrapOptionWithoutBootstrap { option } && Some(option@)
                == self.bootstrap_option()
        } else if self.diag && self.beside_diag() is Some {
            error matches PlanError::DiagIsStandalone { with } && with@ == self.beside_diag()->0.spelling()
        } else {
            false
        }
    }

    /// Do the operations and their modifiers go together?
    pub open spec fn operations_fit(self) -> bool {
        &&& self.verify ==> self.write is Some
        &&& self.size is Some ==> self.read is Some
        &&& self.alt is Some ==> self.write is Some || self.read is Some
        &&& self.bootstrap_option() is Some ==> self.bootstrap_action() is Some
        &&& self.diag ==> self.beside_diag() is None
    }

    /// Is `error` how the loader flags are refused?
    pub open spec fn loaders_refused(self, error: PlanError) -> bool {
        if self.spl is Some && self.uboot is None {
            error matches PlanError::LoaderPairIncomplete { given, missing } && given@ == "--spl"@ && missing@
                == "--uboot"@
        } else if self.spl is None && self.uboot is Some {
            error matches PlanError::LoaderPairIncomplete { given, missing } && given@ == "--uboot"@ && missing@
                == "--spl"@
        } else {
            false
        }
    }

    /// Are the loader flags a pair, or absent?
    pub open spec fn loaders_fit(self) -> bool {
        self.spl is Some <==> self.uboot is Some
    }

    /// Is every rule kept, and is there anything to do?
    pub open spec fn accepted(self) -> bool {
        self.connection_fits() && self.operations_fit() && self.loaders_fit() && self.requested().len() > 0
    }

    /// Is `error` the first rule that the flags break?
    pub open spec fn refused(self, error: PlanError) -> bool {
        if !self.connection_fits() {
            self.connection_refused(error)
        } else if !self.operations_fit() {
            self.operations_refused(error)
        } else if !self.loaders_fit() {
            self.loaders_refused(error)
        } else {
            self.requested().len() == 0 && error is NoAction
        }
    }

    /// Is `plan` what the flags ask for, with nothing left out?
    pub open spec fn planned(self, plan: Plan) -> bool {
        &&& plan.actions@ == crate::plan::in_fixed_order(self.requested())
        &&& plan.target.index == self.index
        &&& plan.target.alt == match self.alt {
            Some(alt) => alt,
            None => AltSel::Default,
        }
        &&& plan.target.cpu == self.cpu
        &&& plan.target.size == self.size
        &&& plan.images == Images {
            write: self.write,
            read: self.read,
            spl: self.spl,
            uboot: self.uboot,
            firmware_dir: self.firmware_dir,
        }
        &&& self.daemon(plan.remote)
        &&& plan.wait == self.wait
        &&& plan.debug == self.debug
    }

    /// Turn the flags into the ordered [`Plan`] the run will follow.
    ///
    /// # Errors
    /// [`PlanError`] for the first rule that the flags break.
    pub fn into_plan(self) -> (plan: Result<Plan, PlanError>)
        ensures
            match plan {
                Ok(plan) => self.accepted() && self.planned(plan),
                Err(error) => !self.accepted() && self.refused(error),
            },
    {
        let remote = match self.remote() {
            Ok(remote) => remote,
            Err(error) => return Err(error),
        };
        let actions = match self.actions() {
            Ok(actions) => actions,
            Err(error) => return Err(error),
        };
        let images = match self.images() {
            Ok(images) => images,
            Err(error) => return Err(error),
        };
        let target = Target {
            index: self.index,
            alt: match self.alt {
                Some(alt) => alt,
                None => AltSel::Default,
            },
            cpu: self.cpu,
            size: self.size,
        };
        Plan::new(actions, target, images, remote, self.wait, self.debug)
    }

    /// `--host`, `--port` and `--token`, and the rule that they go together.
    fn remote(&self) -> (remote: Result<Option<Remote>, PlanError>)
        ensures
            match remote {
                Ok(remote) => self.connection_fits() && self.daemon(remote),
                Err(error) => !self.connection_fits() && self.connection_refused(error),
            },
    {
        let host = match &self.host {
            Some(host) => host,
            None => {
                if self.port.is_some() {
                    return Err(PlanError::RemoteOptionWithoutHost { option: "--port" });
                }
                if self.token.is_some() {
                    return Err(PlanError::RemoteOptionWithoutHost { option: "--token" });
                }
                return Ok(None);
            },
        };
        if self.firmware_dir.is_some() {
            return Err(PlanError::RemoteOptionIsLocal { option: "--firmware-dir" });
        }
        let (name, carried): (String, u16) = match split_host(host.as_str()) {
            Some(split) => split,
            None => (host.clone(), DEFAULT_PORT),
        };
        let port: u16 = match self.port {
            Some(port) => port,
            None => carried,
        };
        Ok(Some(Remote { host: name, port, token: crate::model::copy_of(&self.token) }))
    }

    /// The operations, unordered: [`Plan::new`] puts them in the fixed order.
    fn actions(&self) -> (actions: Result<Vec<Action>, PlanError>)
        ensures
            match actions {
                Ok(actions) => self.operations_fit() && actions@ == self.requested(),
                Err(error) => !self.operations_fit() && self.operations_refused(error),
            },
    {
        let mut actions: Vec<Action> = Vec::new();
        push_asked(&mut actions, self.list, Action::List);
        assert(actions@ =~= asked(self.list, Action::List));
        push_asked(&mut actions, self.diag, Action::Diag);
        push_asked(&mut actions, self.erase, Action::Erase);
        push_asked(&mut actions, self.write.is_some(), Action::Write);
        push_asked(&mut actions, self.write.is_some() && self.verify, Action::Verify);
        if self.write.is_none() && self.verify {
            return Err(PlanError::VerifyWithoutWrite);
        }
        push_asked(&mut actions, self.read.is_some(), Action::Read);
        if self.read.is_none() && self.size.is_some() {
            return Err(PlanError::SizeWithoutRead);
        }
        push_asked(&mut actions, self.reboot, Action::Reboot);

        self.push_bootstrap(&mut actions);
        proof {
            self.lemma_requested();
        }
        if let Err(error) = self.check_alt(&actions) {
            return Err(error);
        }
        if let Err(error) = self.check_bootstrap_options(&actions) {
            return Err(error);
        }
        if let Err(error) = self.check_diag(&actions) {
            return Err(error);
        }
        Ok(actions)
    }

    /// The reports among the operations.
    spec fn reports(self) -> Seq<Action> {
        asked(self.list, Action::List) + asked(self.diag, Action::Diag)
    }

    /// The operations that are not reports.
    spec fn works(self) -> Seq<Action> {
        asked(self.erase, Action::Erase) + asked(self.write is Some, Action::Write) + asked(
            self.write is Some && self.verify,
            Action::Verify,
        ) + asked(self.read is Some, Action::Read) + asked(self.reboot, Action::Reboot)
    }

    /// What the operations are made of, as the rules read them.
    spec fn sorted_out(self, reports: Seq<Action>, works: Seq<Action>) -> bool {
        &&& self.operations() == reports + works
        &&& forall|i: int| 0 <= i < reports.len() ==> (#[trigger] reports[i] is List || reports[i] is Diag)
        &&& forall|i: int| 0 <= i < works.len() ==> #[trigger] works[i].on_the_gadget()
        &&& works.len() > 0 <==> self.transfers()
        &&& works.len() > 0 ==> Some(works[0]) == self.beside_diag()
        &&& (exists|i: int| 0 <= i < works.len() && #[trigger] works[i].on_an_alt()) <==> self.write is Some
            || self.read is Some
    }

    proof fn lemma_operations(&self) -> (parts: (Seq<Action>, Seq<Action>))
        ensures
            self.sorted_out(parts.0, parts.1),
    {
        let erase = asked(self.erase, Action::Erase);
        let write = asked(self.write is Some, Action::Write);
        let verify = asked(self.write is Some && self.verify, Action::Verify);
        let read = asked(self.read is Some, Action::Read);
        let reboot = asked(self.reboot, Action::Reboot);
        lemma_works(
            self.works(),
            self.erase,
            self.write is Some,
            self.write is Some && self.verify,
            self.read is Some,
            self.reboot,
        );
        assert(self.operations() =~= self.reports() + self.works()) by {
            lemma_regroup(
                asked(self.list, Action::List),
                asked(self.diag, Action::Diag),
                erase,
                write,
                verify,
                read,
                reboot,
            );
        }
        (self.reports(), self.works())
    }

    /// A list of operations, and the bootstrap that it and the flags ask for.
    pub open spec fn with_bootstrap(self, actions: Seq<Action>) -> Seq<Action> {
        if self.bootstrap || (actions.len() == 0 && self.spl is Some && self.uboot is Some) {
            actions.push(Action::Bootstrap(BootstrapTrigger::Requested))
        } else if exists|i: int| 0 <= i < actions.len() && #[trigger] actions[i].on_the_gadget() {
            actions.push(Action::Bootstrap(BootstrapTrigger::Auto))
        } else {
            actions
        }
    }

    /// What the rules read in the list that the flags make.
    #[verifier::rlimit(60)]
    #[verifier::spinoff_prover]
    proof fn lemma_requested(&self)
        ensures
            self.with_bootstrap(self.operations()) == self.requested(),
            (exists|i: int| 0 <= i < self.requested().len() && #[trigger] self.requested()[i].on_an_alt())
                <==> self.write is Some || self.read is Some,
            any_bootstrap_of(self.requested()) <==> self.bootstrap_action() is Some,
            first_work_of(self.requested()) == self.beside_diag(),
    {
        let (reports, works) = self.lemma_operations();
        let operations = self.operations();
        let actions = self.requested();
        assert((exists|i: int| 0 <= i < operations.len() && #[trigger] operations[i].on_the_gadget())
            == self.transfers()) by {
            if self.transfers() {
                assert(operations[reports.len() as int] == works[0]);
                assert(operations[reports.len() as int].on_the_gadget());
            } else {
                assert(operations =~= reports);
            }
        }
        if self.write is Some || self.read is Some {
            let i = choose|i: int| 0 <= i < works.len() && #[trigger] works[i].on_an_alt();
            assert(actions[reports.len() + i] == works[i]);
        } else {
            assert forall|i: int| 0 <= i < actions.len() implies !#[trigger] actions[i].on_an_alt() by {
                if i < reports.len() {
                    assert(actions[i] == reports[i]);
                } else if i < operations.len() {
                    assert(actions[i] == works[i - reports.len()]);
                }
            }
        }
        if self.bootstrap_action() is Some {
            assert(actions[actions.len() - 1] is Bootstrap);
        } else {
            assert forall|i: int| 0 <= i < actions.len() implies !(#[trigger] actions[i] is Bootstrap) by {
                if i < reports.len() {
                    assert(actions[i] == reports[i]);
                } else {
                    assert(actions[i] == works[i - reports.len()]);
                }
            }
        }
        let rest = match self.bootstrap_action() {
            Some(action) => works.push(action),
            None => works,
        };
        assert(actions =~= reports + rest);
        lemma_first_work(reports, rest);
    }

    /// `-b`, and the two implicit forms of it.
    fn push_bootstrap(&self, actions: &mut Vec<Action>)
        ensures
            final(actions)@ == self.with_bootstrap(old(actions)@),
    {
        if self.bootstrap {
            actions.push(Action::Bootstrap(BootstrapTrigger::Requested));
            return;
        }
        if actions.len() == 0 && self.spl.is_some() && self.uboot.is_some() {
            actions.push(Action::Bootstrap(BootstrapTrigger::Requested));
            return;
        }
        if any_needs_the_gadget(actions) {
            actions.push(Action::Bootstrap(BootstrapTrigger::Auto));
        }
    }

    /// `--alt` selects the alt a transfer targets, and nothing else has an alt.
    fn check_alt(&self, actions: &Vec<Action>) -> (checked: Result<(), PlanError>)
        ensures
            checked is Err <==> self.alt is Some && !(exists|i: int|
                0 <= i < actions.len() && #[trigger] actions[i].on_an_alt()),
            checked matches Err(error) ==> error is AltWithoutTransfer,
    {
        if self.alt.is_some() && !any_takes_an_alt(actions) {
            return Err(PlanError::AltWithoutTransfer);
        }
        Ok(())
    }

    /// Everything that only configures a bootstrap needs there to be one.
    fn check_bootstrap_options(&self, actions: &Vec<Action>) -> (checked: Result<(), PlanError>)
        ensures
            checked is Err <==> self.bootstrap_option() is Some && !any_bootstrap_of(actions@),
            checked matches Err(error) ==> (error matches PlanError::BootstrapOptionWithoutBootstrap { option }
                && Some(option@) == self.bootstrap_option()),
    {
        if any_bootstrap(actions) {
            return Ok(());
        }
        if self.cpu.is_some() {
            return Err(PlanError::BootstrapOptionWithoutBootstrap { option: "--cpu" });
        }
        if self.spl.is_some() {
            return Err(PlanError::BootstrapOptionWithoutBootstrap { option: "--spl" });
        }
        if self.uboot.is_some() {
            return Err(PlanError::BootstrapOptionWithoutBootstrap { option: "--uboot" });
        }
        if self.firmware_dir.is_some() {
            return Err(PlanError::BootstrapOptionWithoutBootstrap { option: "--firmware-dir" });
        }
        Ok(())
    }

    /// `--diag` is standalone, but for `-l`, which is the other read-only report.
    fn check_diag(&self, actions: &Vec<Action>) -> (checked: Result<(), PlanError>)
        ensures
            checked is Err <==> self.diag && first_work_of(actions@) is Some,
            checked matches Err(error) ==> (error matches PlanError::DiagIsStandalone { with } && with@
                == first_work_of(actions@)->0.spelling()),
    {
        if !self.diag {
            return Ok(());
        }
        match first_work(actions) {
            Some(other) => Err(PlanError::DiagIsStandalone { with: other.flag().to_owned() }),
            None => Ok(()),
        }
    }

    /// `--spl`, `--uboot`, `--firmware-dir` and the images a transfer needs.
    fn images(&self) -> (images: Result<Images, PlanError>)
        ensures
            match images {
                Ok(images) => self.loaders_fit() && images == (Images {
                    write: self.write,
                    read: self.read,
                    spl: self.spl,
                    uboot: self.uboot,
                    firmware_dir: self.firmware_dir,
                }),
                Err(error) => !self.loaders_fit() && self.loaders_refused(error),
            },
    {
        match (&self.spl, &self.uboot) {
            (Some(_), None) => {
                return Err(PlanError::LoaderPairIncomplete { given: "--spl", missing: "--uboot" });
            },
            (None, Some(_)) => {
                return Err(PlanError::LoaderPairIncomplete { given: "--uboot", missing: "--spl" });
            },
            _ => {},
        }
        Ok(
            Images {
                write: crate::model::copy_of(&self.write),
                read: crate::model::copy_of(&self.read),
                spl: crate::model::copy_of(&self.spl),
                uboot: crate::model::copy_of(&self.uboot),
                firmware_dir: crate::model::copy_of(&self.firmware_dir),
            },
        )
    }
}

// ---------------------------------------------------------------------------
// The laws of the argument surface.
// ---------------------------------------------------------------------------
proof fn lemma_asked_contains(before: Seq<Action>, yes: bool, action: Action, wanted: Action)
    ensures
        (before + asked(yes, action)).contains(wanted) <==> before.contains(wanted) || (yes && wanted == action),
{
    let after = before + asked(yes, action);
    if before.contains(wanted) {
        let i = choose|i: int| 0 <= i < before.len() && before[i] == wanted;
        assert(after[i] == wanted);
    }
    if yes && wanted == action {
        assert(after[before.len() as int] == wanted);
    }
    if after.contains(wanted) {
        let i = choose|i: int| 0 <= i < after.len() && after[i] == wanted;
        if i < before.len() {
            assert(before[i] == wanted);
        }
    }
}

/// Does the set of flags ask for this action?
pub open spec fn asks_for(cli: Cli, action: Action) -> bool {
    match action {
        Action::List => cli.list,
        Action::Diag => cli.diag,
        Action::Bootstrap(_) => cli.bootstrap_action() == Some(action),
        Action::Erase => cli.erase,
        Action::Write => cli.write is Some,
        Action::Verify => cli.write is Some && cli.verify,
        Action::Read => cli.read is Some,
        Action::Reboot => cli.reboot,
    }
}

proof fn lemma_requested_contains(cli: Cli, action: Action)
    ensures
        cli.requested().contains(action) <==> asks_for(cli, action),
{
    let none = Seq::<Action>::empty();
    let list = none + asked(cli.list, Action::List);
    assert(list =~= asked(cli.list, Action::List));
    let diag = list + asked(cli.diag, Action::Diag);
    let erase = diag + asked(cli.erase, Action::Erase);
    let write = erase + asked(cli.write is Some, Action::Write);
    let verify = write + asked(cli.write is Some && cli.verify, Action::Verify);
    let read = verify + asked(cli.read is Some, Action::Read);
    lemma_asked_contains(none, cli.list, Action::List, action);
    lemma_asked_contains(list, cli.diag, Action::Diag, action);
    lemma_asked_contains(diag, cli.erase, Action::Erase, action);
    lemma_asked_contains(erase, cli.write is Some, Action::Write, action);
    lemma_asked_contains(write, cli.write is Some && cli.verify, Action::Verify, action);
    lemma_asked_contains(verify, cli.read is Some, Action::Read, action);
    lemma_asked_contains(read, cli.reboot, Action::Reboot, action);
    let operations = cli.operations();
    match cli.bootstrap_action() {
        Some(bootstrap) => {
            lemma_asked_contains(operations, true, bootstrap, action);
            assert(operations + asked(true, bootstrap) =~= operations.push(bootstrap));
        },
        None => {},
    }
}

/// The plan holds an action exactly where the flags ask for it.
///
/// So `-l` beside an operation lists and operates: neither flag swallows the other.
pub proof fn law_a_plan_does_what_was_asked(cli: Cli, plan: Plan, action: Action)
    requires
        cli.planned(plan),
    ensures
        plan.actions@.contains(action) <==> asks_for(cli, action),
{
    broadcast use vstd::seq_lib::group_to_multiset_ensures;

    lemma_requested_contains(cli, action);
    crate::plan::law_every_action_is_kept(cli.requested());
    assert(plan.actions@.to_multiset().count(action) == cli.requested().to_multiset().count(action));
}

/// No flag is accepted and then ignored: every modifier that was given is in the plan, beside
/// the operation it modifies.
pub proof fn law_no_modifier_is_ignored(cli: Cli, plan: Plan)
    requires
        cli.accepted(),
        cli.planned(plan),
    ensures
        cli.verify ==> plan.actions@.contains(Action::Write) && plan.actions@.contains(Action::Verify),
        cli.size is Some ==> plan.target.size == cli.size && plan.actions@.contains(Action::Read),
        cli.alt is Some ==> plan.target.alt == cli.alt->0 && (plan.actions@.contains(Action::Write)
            || plan.actions@.contains(Action::Read)),
        cli.port is Some || cli.token is Some ==> plan.remote is Some,
        cli.port is Some ==> plan.remote->0.port == cli.port->0,
        cli.token is Some ==> plan.remote->0.token == cli.token,
        cli.cpu is Some || cli.spl is Some || cli.uboot is Some || cli.firmware_dir is Some ==> (
        plan.actions@.contains(Action::Bootstrap(BootstrapTrigger::Requested)) || plan.actions@.contains(
            Action::Bootstrap(BootstrapTrigger::Auto),
        )),
        cli.firmware_dir is Some ==> plan.remote is None && plan.images.firmware_dir == cli.firmware_dir,
        plan.target.index == cli.index,
        plan.target.cpu == cli.cpu,
        plan.target.size == cli.size,
        cli.alt is None ==> plan.target.alt is Default,
        plan.images.write == cli.write && plan.images.read == cli.read,
        plan.images.spl == cli.spl && plan.images.uboot == cli.uboot,
        plan.wait == cli.wait && plan.debug == cli.debug,
        plan.remote is Some <==> cli.host is Some,
{
    law_a_plan_does_what_was_asked(cli, plan, Action::Write);
    law_a_plan_does_what_was_asked(cli, plan, Action::Verify);
    law_a_plan_does_what_was_asked(cli, plan, Action::Read);
    law_a_plan_does_what_was_asked(cli, plan, Action::Bootstrap(BootstrapTrigger::Requested));
    law_a_plan_does_what_was_asked(cli, plan, Action::Bootstrap(BootstrapTrigger::Auto));
}

/// Whatever runs against the gadget runs behind a bootstrap.
pub proof fn law_a_transfer_is_bootstrapped_first(cli: Cli, plan: Plan, at: int)
    requires
        cli.planned(plan),
        0 <= at < plan.actions.len(),
        plan.actions[at].on_the_gadget(),
    ensures
        exists|before: int| 0 <= before < at && #[trigger] plan.actions[before] is Bootstrap,
{
    let action = plan.actions[at];
    assert(plan.actions@.contains(action));
    law_a_plan_does_what_was_asked(cli, plan, action);
    assert(cli.bootstrap_action() is Some) by {
        let (reports, works) = cli.lemma_operations();
        if cli.operations().len() == 0 {
            assert(works.len() == 0);
        }
    }
    let bootstrap = cli.bootstrap_action()->0;
    law_a_plan_does_what_was_asked(cli, plan, bootstrap);
    let before = choose|before: int| 0 <= before < plan.actions.len() && plan.actions[before] == bootstrap;
    crate::plan::law_actions_run_slot_by_slot(cli.requested());
    if before >= at {
        assert(crate::plan::in_fixed_order(cli.requested())[at].slot() <= crate::plan::in_fixed_order(
            cli.requested(),
        )[before].slot());
    }
    assert(plan.actions[before] is Bootstrap);
}

/// `--diag` is standalone: what runs beside it only reports.
pub proof fn law_diag_runs_beside_reports_only(cli: Cli, plan: Plan, at: int)
    requires
        cli.accepted(),
        cli.planned(plan),
        cli.diag,
        0 <= at < plan.actions.len(),
    ensures
        plan.actions[at] is List || plan.actions[at] is Diag,
{
    let action = plan.actions[at];
    assert(plan.actions@.contains(action));
    law_a_plan_does_what_was_asked(cli, plan, action);
}

/// A run goes to the daemon that was named: to the host and port that `--host` carries, to the
/// port of `--port` before any other, and to the documented one where neither names a port.
pub proof fn law_the_named_daemon_is_the_one(cli: Cli, plan: Plan, name: Seq<char>, port: u16)
    requires
        cli.planned(plan),
        cli.host is Some,
        name.len() > 0,
        !name.contains(':'),
        port > 0,
    ensures
        plan.remote matches Some(remote) && {
            &&& cli.host->0@ == name ==> remote.host@ == name && remote.port == (match cli.port {
                Some(given) => given,
                None => 5050,
            })
            &&& cli.host->0@ == name + ":"@ + crate::text::decimal(port as nat) ==> remote.host@ == name && remote.port
                == (match cli.port {
                Some(given) => given,
                None => port,
            })
            &&& (forall|at: int| !is_only_colon(cli.host->0@, at)) ==> remote.host@ == cli.host->0@
            &&& remote.token == cli.token
        },
{
    law_a_host_may_carry_its_port(name, port);
    assert forall|at: int| !is_only_colon(name, at) by {
        if is_only_colon(name, at) {
            assert(name[at] == ':');
        }
    }
}

/// What a plan asks for is what runs: an accepted set of flags makes a plan whose actions are in
/// the documented order, and one that is refused makes none.
pub proof fn law_a_plan_is_in_order(cli: Cli, plan: Plan)
    requires
        cli.planned(plan),
    ensures
        crate::run::is_in_order(plan.actions@),
{
    assert forall|i: int, j: int| 0 <= i <= j < plan.actions@.len() implies crate::plan::documented_place(
        #[trigger] plan.actions@[i],
    ) <= crate::plan::documented_place(#[trigger] plan.actions@[j]) by {
        crate::plan::law_the_order_is_the_documented_one(cli.requested(), i, j);
    }
}

/// Does anything that was asked for change or read the flash, or reboot?
pub open spec fn asks_for_a_transfer(cli: Cli) -> bool {
    cli.erase || cli.write is Some || cli.read is Some || cli.reboot
}

/// Is a bootstrap asked for by name: with `-b`, or with a pair of loaders and nothing else?
pub open spec fn asks_for_a_bootstrap(cli: Cli) -> bool {
    cli.bootstrap || (cli.spl is Some && cli.uboot is Some && !cli.list && !cli.diag && !asks_for_a_transfer(cli))
}

proof fn lemma_no_operations(cli: Cli)
    ensures
        cli.operations().len() == 0 <==> !cli.list && !cli.diag && !asks_for_a_transfer(cli),
{
    let (reports, works) = cli.lemma_operations();
    let listed = asked(cli.list, Action::List);
    assert(cli.reports().len() == listed.len() + asked(cli.diag, Action::Diag).len());
}

/// A bootstrap is planned where one was asked for by name, and as an automatic one in front of
/// every transfer else, and not otherwise.
pub proof fn law_a_bootstrap_is_planned_where_it_is_needed(cli: Cli, plan: Plan)
    requires
        cli.planned(plan),
    ensures
        plan.actions@.contains(Action::Bootstrap(BootstrapTrigger::Requested)) <==> asks_for_a_bootstrap(cli),
        plan.actions@.contains(Action::Bootstrap(BootstrapTrigger::Auto)) <==> asks_for_a_transfer(cli)
            && !asks_for_a_bootstrap(cli),
{
    law_a_plan_does_what_was_asked(cli, plan, Action::Bootstrap(BootstrapTrigger::Requested));
    law_a_plan_does_what_was_asked(cli, plan, Action::Bootstrap(BootstrapTrigger::Auto));
    lemma_no_operations(cli);
}

/// A set of flags is a plan exactly where it keeps every rule: there is something to do, each
/// modifier has what it modifies, the loaders come as a pair, and what is standalone stands alone.
pub proof fn law_what_is_accepted(cli: Cli)
    ensures
        cli.accepted() <==> {
            let transfer = asks_for_a_transfer(cli);
            let bootstrap = asks_for_a_bootstrap(cli) || transfer;
            &&& cli.list || cli.diag || bootstrap
            &&& cli.verify ==> cli.write is Some
            &&& cli.size is Some ==> cli.read is Some
            &&& cli.alt is Some ==> cli.write is Some || cli.read is Some
            &&& cli.port is Some || cli.token is Some ==> cli.host is Some
            &&& cli.firmware_dir is Some ==> cli.host is None
            &&& cli.cpu is Some || cli.spl is Some || cli.uboot is Some || cli.firmware_dir is Some ==> bootstrap
            &&& cli.spl is Some <==> cli.uboot is Some
            &&& cli.diag ==> !bootstrap
        },
{
    lemma_no_operations(cli);
}

/// A number on the command line is taken as the number it is, where it is in range, and refused
/// where it is not: none is folded onto another.
pub proof fn law_a_number_is_taken_as_it_is(n: nat)
    ensures
        index_value(crate::text::decimal(n)) == (if n < 256 {
            Some(n as u8)
        } else {
            None
        }),
        size_value(crate::text::decimal(n)) == (if 0 < n < 0x1_0000_0000_0000_0000 {
            Some(n as u64)
        } else {
            None
        }),
        port_value(crate::text::decimal(n)) == (if 0 < n < 0x1_0000 {
            Some(n as u16)
        } else {
            None
        }),
{
    crate::text::law_a_number_reads_back(n);
}

/// A `--host` with one colon is the name before it and the port behind it, and one without a colon,
/// or with more than one, is a name as it stands.
pub proof fn law_a_host_is_split_at_its_colon(name: Seq<char>, port: Seq<char>)
    requires
        name.len() > 0,
        !name.contains(':'),
    ensures
        host_and_port(name) is None,
        !port.contains(':') ==> host_and_port(name + ":"@ + port) == (match port_value(port) {
            Some(number) => Some((name, number)),
            None => None,
        }),
        port.contains(':') ==> host_and_port(name + ":"@ + port) is None,
{
    reveal_strlit(":");
    let text = name + ":"@ + port;
    let at = name.len() as int;
    assert forall|one: int| !is_only_colon(name, one) by {
        if is_only_colon(name, one) {
            assert(name.contains(name[one]));
        }
    }
    if port.contains(':') {
        let next = choose|i: int| 0 <= i < port.len() && port[i] == ':';
        assert(text[at] == ':' && text[at + 1 + next] == ':');
        assert forall|one: int| !is_only_colon(text, one) by {}
    } else {
        assert forall|i: int| 0 <= i < text.len() && i != at implies #[trigger] text[i] != ':' by {
            if i < at {
                assert(name.contains(name[i]));
            } else {
                assert(port.contains(port[i - at - 1]));
            }
        }
        assert(is_only_colon(text, at));
        let one = choose|one: int| is_only_colon(text, one);
        assert(is_only_colon(text, one));
        assert(one == at);
        assert(text.take(at) =~= name);
        assert(text.skip(at + 1) =~= port);
    }
}

} // verus!
