//! What one run will do, in the order it will do it.
//!
//! The order is fixed: list, diagnostics, bootstrap, erase, write, verify, read, reboot,
//! whatever order the flags were typed in. `-l` beside an operation lists *and* operates.
use vstd::prelude::*;
use vstd::string::*;

use crate::model::{AltSel, Variant};

verus! {

/// One thing a run does.
#[derive(Debug, Clone, Copy, PartialEq, Eq, Structural)]
pub enum Action {
    /// `-l`: list the devices.
    List,
    /// `--diag`: read the eFuse report out of a bootrom.
    Diag,
    /// `-b`: bring a bootrom up as the DFU gadget.
    Bootstrap(BootstrapTrigger),
    /// `--erase`: erase the whole flash.
    Erase,
    /// `-w`: write an image.
    Write,
    /// `--verify`: compare the flash with the image that `-w` wrote.
    Verify,
    /// `-r`: read the flash into a file.
    Read,
    /// `--reboot`: reboot the SoC.
    Reboot,
}

/// Why a bootstrap is in the plan.
#[derive(Debug, Clone, Copy, PartialEq, Eq, Structural)]
pub enum BootstrapTrigger {
    /// It was asked for.
    Requested,
    /// Another operation needs the gadget.
    Auto,
}

impl Action {
    /// The slot this action takes in the fixed order.
    pub open spec fn slot(self) -> int {
        match self {
            Action::List => 0,
            Action::Diag => 5,
            Action::Bootstrap(_) => 10,
            Action::Erase => 20,
            Action::Write => 30,
            Action::Verify => 40,
            Action::Read => 50,
            Action::Reboot => 60,
        }
    }

    /// The flag that asks for this action.
    pub open spec fn spelling(self) -> Seq<char> {
        match self {
            Action::List => "-l"@,
            Action::Diag => "--diag"@,
            Action::Bootstrap(_) => "-b"@,
            Action::Erase => "--erase"@,
            Action::Write => "-w"@,
            Action::Verify => "--verify"@,
            Action::Read => "-r"@,
            Action::Reboot => "--reboot"@,
        }
    }

    /// Does this action run against the DFU gadget?
    pub open spec fn on_the_gadget(self) -> bool {
        self is Erase || self is Write || self is Verify || self is Read || self is Reboot
    }

    /// Does this action target an alt-setting?
    pub open spec fn on_an_alt(self) -> bool {
        self is Write || self is Verify || self is Read
    }

    /// The slot this action takes in the fixed order.
    pub fn order(&self) -> (order: u8)
        ensures
            order == self.slot(),
    {
        match self {
            Action::List => 0,
            Action::Diag => 5,
            Action::Bootstrap(_) => 10,
            Action::Erase => 20,
            Action::Write => 30,
            Action::Verify => 40,
            Action::Read => 50,
            Action::Reboot => 60,
        }
    }

    /// The flag that asks for this action, as it is spelled.
    pub fn flag(&self) -> (flag: &'static str)
        ensures
            flag@ == self.spelling(),
    {
        match self {
            Action::List => "-l",
            Action::Diag => "--diag",
            Action::Bootstrap(_) => "-b",
            Action::Erase => "--erase",
            Action::Write => "-w",
            Action::Verify => "--verify",
            Action::Read => "-r",
            Action::Reboot => "--reboot",
        }
    }

    /// Does this action run against the DFU gadget?
    ///
    /// A transfer cannot happen in the bootrom, so each of these bootstraps a bootrom first.
    pub fn needs_the_gadget(&self) -> (needs: bool)
        ensures
            needs == self.on_the_gadget(),
    {
        matches!(self, Action::Erase | Action::Write | Action::Verify | Action::Read | Action::Reboot)
    }

    /// Does this action target an alt-setting that `--alt` can name?
    ///
    /// `--erase` and `--reboot` use alt-settings of the loader's own.
    pub fn takes_an_alt(&self) -> (takes: bool)
        ensures
            takes == self.on_an_alt(),
    {
        matches!(self, Action::Write | Action::Verify | Action::Read)
    }
}

/// Which device, and which part of it.
#[derive(Debug, Clone, PartialEq, Eq)]
pub struct Target {
    /// `-i`: the row that `-l` numbers.
    pub index: u8,
    /// `--alt`.
    pub alt: AltSel,
    /// `--cpu`: the variant, without asking the device.
    pub cpu: Option<Variant>,
    /// `--size`: how many bytes a read keeps.
    pub size: Option<u64>,
}

/// The local files a run reads and writes, by the path that names each.
#[derive(Debug, Clone, PartialEq, Eq)]
pub struct Images {
    /// `-w`.
    pub write: Option<String>,
    /// `-r`.
    pub read: Option<String>,
    /// `--spl`.
    pub spl: Option<String>,
    /// `--uboot`.
    pub uboot: Option<String>,
    /// `--firmware-dir`.
    pub firmware_dir: Option<String>,
}

impl Default for Images {
    fn default() -> (images: Self)
        ensures
            images == (Images { write: None, read: None, spl: None, uboot: None, firmware_dir: None }),
    {
        Images { write: None, read: None, spl: None, uboot: None, firmware_dir: None }
    }
}

impl Images {
    /// The stage-1 and U-Boot images that replace the tree's, where both were named.
    pub fn custom_loaders(&self) -> (pair: Option<(&str, &str)>)
        ensures
            match (self.spl, self.uboot) {
                (Some(spl), Some(uboot)) => pair matches Some((first, second)) && first@ == spl@
                    && second@ == uboot@,
                _ => pair is None,
            },
    {
        match (&self.spl, &self.uboot) {
            (Some(spl), Some(uboot)) => Some((spl.as_str(), uboot.as_str())),
            _ => None,
        }
    }
}

/// The daemon that runs the plan in place of the local bus.
#[derive(Debug, Clone, PartialEq, Eq)]
pub struct Remote {
    /// `--host`.
    pub host: String,
    /// `--port`.
    pub port: u16,
    /// `--token`.
    pub token: Option<String>,
}

/// What one run will do.
#[derive(Debug, Clone, PartialEq, Eq)]
pub struct Plan {
    /// The actions, in the order they run.
    pub actions: Vec<Action>,
    /// What they run against.
    pub target: Target,
    /// The files they need.
    pub images: Images,
    /// The daemon they run through, if they do not run locally.
    pub remote: Option<Remote>,
    /// `--wait`.
    pub wait: bool,
    /// `-d`.
    pub debug: bool,
}

/// The actions of one slot, in the order they were given.
pub open spec fn of_slot(actions: Seq<Action>, slot: int) -> Seq<Action> {
    actions.filter(|action: Action| action.slot() == slot)
}

/// The actions in the fixed order: slot by slot, and within a slot as they were given.
pub open spec fn in_fixed_order(actions: Seq<Action>) -> Seq<Action> {
    of_slot(actions, 0) + of_slot(actions, 5) + of_slot(actions, 10) + of_slot(actions, 20) + of_slot(
        actions,
        30,
    ) + of_slot(actions, 40) + of_slot(actions, 50) + of_slot(actions, 60)
}

/// Append the actions of one slot to `ordered`.
fn push_slot(ordered: &mut Vec<Action>, actions: &Vec<Action>, slot: u8)
    ensures
        final(ordered)@ == old(ordered)@ + of_slot(actions@, slot as int),
{
    let ghost keep = |action: Action| action.slot() == slot as int;
    let mut at: usize = 0;
    assert(actions@.take(0).filter(keep) =~= Seq::empty()) by {
        reveal(Seq::filter);
    }
    assert(ordered@ =~= old(ordered)@ + actions@.take(0).filter(keep));
    while at < actions.len()
        invariant
            at <= actions.len(),
            keep == (|action: Action| action.slot() == slot as int),
            ordered@ == old(ordered)@ + actions@.take(at as int).filter(keep),
        decreases actions.len() - at,
    {
        let action = actions[at];
        proof {
            reveal(Seq::filter);
            assert(actions@.take(at + 1).drop_last() =~= actions@.take(at as int));
            assert(actions@.take(at + 1).last() == action);
        }
        if action.order() == slot {
            ordered.push(action);
        }
        at += 1;
        assert(ordered@ =~= old(ordered)@ + actions@.take(at as int).filter(keep));
    }
    assert(actions@.take(at as int) =~= actions@);
}

impl Plan {
    /// The plan for `actions`, which it puts into the fixed order.
    ///
    /// # Errors
    /// [`PlanError::NoAction`] when there is nothing to do.
    pub fn new(
        actions: Vec<Action>,
        target: Target,
        images: Images,
        remote: Option<Remote>,
        wait: bool,
        debug: bool,
    ) -> (plan: Result<Self, PlanError>)
        ensures
            match plan {
                Ok(plan) => {
                    &&& actions@.len() > 0
                    &&& plan.actions@ == in_fixed_order(actions@)
                    &&& plan.target == target
                    &&& plan.images == images
                    &&& plan.remote == remote
                    &&& plan.wait == wait
                    &&& plan.debug == debug
                },
                Err(error) => error is NoAction && actions@.len() == 0,
            },
    {
        if actions.len() == 0 {
            return Err(PlanError::NoAction);
        }
        let mut ordered: Vec<Action> = Vec::new();
        push_slot(&mut ordered, &actions, 0);
        push_slot(&mut ordered, &actions, 5);
        push_slot(&mut ordered, &actions, 10);
        push_slot(&mut ordered, &actions, 20);
        push_slot(&mut ordered, &actions, 30);
        push_slot(&mut ordered, &actions, 40);
        push_slot(&mut ordered, &actions, 50);
        push_slot(&mut ordered, &actions, 60);
        assert(ordered@ =~= in_fixed_order(actions@));
        Ok(Plan { actions: ordered, target, images, remote, wait, debug })
    }

    /// Is `action` in the plan?
    pub fn does(&self, action: &Action) -> (does: bool)
        ensures
            does == self.actions@.contains(*action),
    {
        let mut at: usize = 0;
        while at < self.actions.len()
            invariant
                at <= self.actions.len(),
                forall|i: int| 0 <= i < at ==> self.actions[i] != *action,
            decreases self.actions.len() - at,
        {
            if self.actions[at] == *action {
                return true;
            }
            at += 1;
        }
        false
    }

    /// Does any action of the plan run against the DFU gadget?
    pub fn needs_the_gadget(&self) -> (needs: bool)
        ensures
            needs == exists|i: int| 0 <= i < self.actions.len() && #[trigger] self.actions[i].on_the_gadget(),
    {
        any_needs_the_gadget(&self.actions)
    }
}

/// Does any of these actions run against the DFU gadget?
pub(crate) fn any_needs_the_gadget(actions: &Vec<Action>) -> (any: bool)
    ensures
        any == exists|i: int| 0 <= i < actions.len() && #[trigger] actions[i].on_the_gadget(),
{
    let mut at: usize = 0;
    while at < actions.len()
        invariant
            at <= actions.len(),
            forall|i: int| 0 <= i < at ==> !#[trigger] actions[i].on_the_gadget(),
        decreases actions.len() - at,
    {
        if actions[at].needs_the_gadget() {
            return true;
        }
        at += 1;
    }
    false
}

/// Does any of these actions target an alt-setting?
pub(crate) fn any_takes_an_alt(actions: &Vec<Action>) -> (any: bool)
    ensures
        any == exists|i: int| 0 <= i < actions.len() && #[trigger] actions[i].on_an_alt(),
{
    let mut at: usize = 0;
    while at < actions.len()
        invariant
            at <= actions.len(),
            forall|i: int| 0 <= i < at ==> !#[trigger] actions[i].on_an_alt(),
        decreases actions.len() - at,
    {
        if actions[at].takes_an_alt() {
            return true;
        }
        at += 1;
    }
    false
}

/// Why a command line is not a plan.
#[derive(Debug, Clone, PartialEq, Eq)]
pub enum PlanError {
    /// Nothing was asked for.
    NoAction,
    /// `--diag` beside something that needs the gadget.
    DiagIsStandalone {
        /// The flag it cannot run with.
        with: String,
    },
    /// `--verify` with no image to compare with.
    VerifyWithoutWrite,
    /// `--size` with no read to cap.
    SizeWithoutRead,
    /// `--alt` with nothing that targets an alt-setting.
    AltWithoutTransfer,
    /// A connection option with no connection.
    RemoteOptionWithoutHost {
        /// The option.
        option: &'static str,
    },
    /// A path on this machine for a bootstrap that another machine runs.
    RemoteOptionIsLocal {
        /// The option.
        option: &'static str,
    },
    /// A choice of loaders with nothing that uploads them.
    BootstrapOptionWithoutBootstrap {
        /// The option.
        option: &'static str,
    },
    /// One half of a loader pair.
    LoaderPairIncomplete {
        /// The half that is there.
        given: &'static str,
        /// The half that is not.
        missing: &'static str,
    },
}

impl PlanError {
    /// What the operator reads.
    pub open spec fn text(self) -> Seq<char> {
        match self {
            PlanError::NoAction => "no action requested: pass -l to list the Ingenic devices on the bus, or -h for every option"@,
            PlanError::DiagIsStandalone { with } => "--diag is a standalone read-only dump and cannot run with "@
                + with@ + ": it needs a device in the bootrom, and "@ + with@
                + " needs the U-Boot DFU gadget. Run them as two commands"@,
            PlanError::VerifyWithoutWrite => "--verify compares the flash against the image -w wrote; there is no -w in this command"@,
            PlanError::SizeWithoutRead => "--size caps how much -r reads back; there is no -r in this command"@,
            PlanError::AltWithoutTransfer => "--alt names the DFU alt-setting -w, -r and --verify target; nothing in this command targets one (--erase and --reboot use the loader's own virt alts)"@,
            PlanError::RemoteOptionWithoutHost { option } => option@
                + " configures the connection --host makes; there is no --host in this command"@,
            PlanError::RemoteOptionIsLocal { option } => option@
                + " points at a loader tree on this machine, and --host runs the bootstrap on the daemon's, out of the tree that daemon was started with. Drop it, or stream the pair you want with --spl and --uboot"@,
            PlanError::BootstrapOptionWithoutBootstrap { option } => option@
                + " chooses the loaders a bootstrap uploads; nothing in this command bootstraps. Add -b, or an operation that needs the DFU gadget"@,
            PlanError::LoaderPairIncomplete { given, missing } => given@ + " needs "@ + missing@
                + " too: USB-booting takes a stage-1 image and a U-Boot image, and mixing a custom one with the firmware tree's is never what was meant"@,
        }
    }

    /// What the operator reads.
    pub fn message(&self) -> (message: String)
        ensures
            message@ == self.text(),
    {
        match self {
            PlanError::NoAction => "no action requested: pass -l to list the Ingenic devices on the bus, or -h for every option".to_owned(),
            PlanError::DiagIsStandalone { with } => {
                let mut message = "--diag is a standalone read-only dump and cannot run with ".to_owned();
                message.append(with.as_str());
                message.append(": it needs a device in the bootrom, and ");
                message.append(with.as_str());
                message.append(" needs the U-Boot DFU gadget. Run them as two commands");
                message
            },
            PlanError::VerifyWithoutWrite => "--verify compares the flash against the image -w wrote; there is no -w in this command".to_owned(),
            PlanError::SizeWithoutRead => "--size caps how much -r reads back; there is no -r in this command".to_owned(),
            PlanError::AltWithoutTransfer => "--alt names the DFU alt-setting -w, -r and --verify target; nothing in this command targets one (--erase and --reboot use the loader's own virt alts)".to_owned(),
            PlanError::RemoteOptionWithoutHost { option } => {
                let mut message = (*option).to_owned();
                message.append(" configures the connection --host makes; there is no --host in this command");
                message
            },
            PlanError::RemoteOptionIsLocal { option } => {
                let mut message = (*option).to_owned();
                message.append(" points at a loader tree on this machine, and --host runs the bootstrap on the daemon's, out of the tree that daemon was started with. Drop it, or stream the pair you want with --spl and --uboot");
                message
            },
            PlanError::BootstrapOptionWithoutBootstrap { option } => {
                let mut message = (*option).to_owned();
                message.append(" chooses the loaders a bootstrap uploads; nothing in this command bootstraps. Add -b, or an operation that needs the DFU gadget");
                message
            },
            PlanError::LoaderPairIncomplete { given, missing } => {
                let mut message = (*given).to_owned();
                message.append(" needs ");
                message.append(missing);
                message.append(" too: USB-booting takes a stage-1 image and a U-Boot image, and mixing a custom one with the firmware tree's is never what was meant");
                message
            },
        }
    }
}

// ---------------------------------------------------------------------------
// The laws of the fixed order.
// ---------------------------------------------------------------------------
/// Is this one of the eight slots of the fixed order?
pub open spec fn is_slot(slot: int) -> bool {
    slot == 0 || slot == 5 || slot == 10 || slot == 20 || slot == 30 || slot == 40 || slot == 50 || slot == 60
}

proof fn lemma_of_slot_push(actions: Seq<Action>, action: Action, slot: int)
    ensures
        of_slot(actions.push(action), slot) == (if action.slot() == slot {
            of_slot(actions, slot).push(action)
        } else {
            of_slot(actions, slot)
        }),
{
    reveal(Seq::filter);
    assert(actions.push(action).drop_last() =~= actions);
}

proof fn lemma_of_slot_members(actions: Seq<Action>, slot: int)
    ensures
        forall|i: int| 0 <= i < of_slot(actions, slot).len() ==> #[trigger] of_slot(actions, slot)[i].slot() == slot,
    decreases actions.len(),
{
    reveal(Seq::filter);
    if actions.len() > 0 {
        lemma_of_slot_members(actions.drop_last(), slot);
        lemma_of_slot_push(actions.drop_last(), actions.last(), slot);
        assert(actions.drop_last().push(actions.last()) =~= actions);
    }
}

proof fn lemma_of_slot_counts(actions: Seq<Action>, slot: int, action: Action)
    ensures
        of_slot(actions, slot).to_multiset().count(action) == (if action.slot() == slot {
            actions.to_multiset().count(action)
        } else {
            0
        }),
    decreases actions.len(),
{
    broadcast use vstd::seq_lib::group_to_multiset_ensures;

    if actions.len() == 0 {
        reveal(Seq::filter);
        assert(of_slot(actions, slot) =~= Seq::empty());
        assert(actions =~= Seq::empty());
    } else {
        let rest = actions.drop_last();
        lemma_of_slot_counts(rest, slot, action);
        lemma_of_slot_push(rest, actions.last(), slot);
        assert(rest.push(actions.last()) =~= actions);
    }
}

/// The fixed order is an order: no action runs before one of an earlier slot.
///
/// Bootstrap, erase, write, verify, read and reboot run in that order, whatever order they
/// were asked for in, and the two reports run before all of them.
pub proof fn law_actions_run_slot_by_slot(actions: Seq<Action>)
    ensures
        forall|i: int, j: int|
            0 <= i <= j < in_fixed_order(actions).len() ==> #[trigger] in_fixed_order(actions)[i].slot()
                <= #[trigger] in_fixed_order(actions)[j].slot(),
{
    lemma_of_slot_members(actions, 0);
    lemma_of_slot_members(actions, 5);
    lemma_of_slot_members(actions, 10);
    lemma_of_slot_members(actions, 20);
    lemma_of_slot_members(actions, 30);
    lemma_of_slot_members(actions, 40);
    lemma_of_slot_members(actions, 50);
    lemma_of_slot_members(actions, 60);
    let first = of_slot(actions, 0) + of_slot(actions, 5) + of_slot(actions, 10) + of_slot(actions, 20);
    assert forall|i: int, j: int| 0 <= i <= j < first.len() implies #[trigger] first[i].slot()
        <= #[trigger] first[j].slot() && first[j].slot() <= 20 by {}
    let second = first + of_slot(actions, 30) + of_slot(actions, 40);
    assert forall|i: int, j: int| 0 <= i <= j < second.len() implies #[trigger] second[i].slot()
        <= #[trigger] second[j].slot() && second[j].slot() <= 40 by {}
}

/// Nothing is dropped and nothing is added: the plan holds each action as often as it was
/// asked for, so `-l` beside an operation never swallows the operation.
pub proof fn law_every_action_is_kept(actions: Seq<Action>)
    ensures
        in_fixed_order(actions).to_multiset() == actions.to_multiset(),
{
    assert forall|action: Action|
        in_fixed_order(actions).to_multiset().count(action) == #[trigger] actions.to_multiset().count(action) by {
        lemma_of_slot_counts(actions, 0, action);
        lemma_of_slot_counts(actions, 5, action);
        lemma_of_slot_counts(actions, 10, action);
        lemma_of_slot_counts(actions, 20, action);
        lemma_of_slot_counts(actions, 30, action);
        lemma_of_slot_counts(actions, 40, action);
        lemma_of_slot_counts(actions, 50, action);
        lemma_of_slot_counts(actions, 60, action);
        let zero = of_slot(actions, 0);
        let five = zero + of_slot(actions, 5);
        let ten = five + of_slot(actions, 10);
        let twenty = ten + of_slot(actions, 20);
        let thirty = twenty + of_slot(actions, 30);
        let forty = thirty + of_slot(actions, 40);
        let fifty = forty + of_slot(actions, 50);
        vstd::seq_lib::lemma_multiset_commutative(zero, of_slot(actions, 5));
        vstd::seq_lib::lemma_multiset_commutative(five, of_slot(actions, 10));
        vstd::seq_lib::lemma_multiset_commutative(ten, of_slot(actions, 20));
        vstd::seq_lib::lemma_multiset_commutative(twenty, of_slot(actions, 30));
        vstd::seq_lib::lemma_multiset_commutative(thirty, of_slot(actions, 40));
        vstd::seq_lib::lemma_multiset_commutative(forty, of_slot(actions, 50));
        vstd::seq_lib::lemma_multiset_commutative(fifty, of_slot(actions, 60));
    }
    assert(in_fixed_order(actions).to_multiset() =~= actions.to_multiset());
}

/// Two actions of one slot run in the order they were given in.
pub proof fn law_a_slot_keeps_its_order(actions: Seq<Action>, slot: int)
    requires
        is_slot(slot),
    ensures
        of_slot(in_fixed_order(actions), slot) == of_slot(actions, slot),
{
    lemma_of_slot_twice(actions, 0, slot);
    lemma_of_slot_twice(actions, 5, slot);
    lemma_of_slot_twice(actions, 10, slot);
    lemma_of_slot_twice(actions, 20, slot);
    lemma_of_slot_twice(actions, 30, slot);
    lemma_of_slot_twice(actions, 40, slot);
    lemma_of_slot_twice(actions, 50, slot);
    lemma_of_slot_twice(actions, 60, slot);
    let zero = of_slot(actions, 0);
    let five = zero + of_slot(actions, 5);
    let ten = five + of_slot(actions, 10);
    let twenty = ten + of_slot(actions, 20);
    let thirty = twenty + of_slot(actions, 30);
    let forty = thirty + of_slot(actions, 40);
    let fifty = forty + of_slot(actions, 50);
    lemma_of_slot_concat(zero, of_slot(actions, 5), slot);
    lemma_of_slot_concat(five, of_slot(actions, 10), slot);
    lemma_of_slot_concat(ten, of_slot(actions, 20), slot);
    lemma_of_slot_concat(twenty, of_slot(actions, 30), slot);
    lemma_of_slot_concat(thirty, of_slot(actions, 40), slot);
    lemma_of_slot_concat(forty, of_slot(actions, 50), slot);
    lemma_of_slot_concat(fifty, of_slot(actions, 60), slot);
    assert(of_slot(in_fixed_order(actions), slot) =~= of_slot(actions, slot));
}

proof fn lemma_of_slot_concat(left: Seq<Action>, right: Seq<Action>, slot: int)
    ensures
        of_slot(left + right, slot) == of_slot(left, slot) + of_slot(right, slot),
    decreases right.len(),
{
    if right.len() == 0 {
        reveal(Seq::filter);
        assert(left + right =~= left);
        assert(of_slot(right, slot) =~= Seq::empty());
    } else {
        let rest = right.drop_last();
        lemma_of_slot_concat(left, rest, slot);
        lemma_of_slot_push(left + rest, right.last(), slot);
        lemma_of_slot_push(rest, right.last(), slot);
        assert((left + rest).push(right.last()) =~= left + right);
        assert(rest.push(right.last()) =~= right);
    }
    assert(of_slot(left + right, slot) =~= of_slot(left, slot) + of_slot(right, slot));
}

proof fn lemma_of_slot_twice(actions: Seq<Action>, first: int, second: int)
    ensures
        of_slot(of_slot(actions, first), second) == (if first == second {
            of_slot(actions, first)
        } else {
            Seq::empty()
        }),
    decreases actions.len(),
{
    reveal(Seq::filter);
    if actions.len() > 0 {
        let rest = actions.drop_last();
        lemma_of_slot_twice(rest, first, second);
        lemma_of_slot_push(rest, actions.last(), first);
        lemma_of_slot_push(of_slot(rest, first), actions.last(), second);
        assert(rest.push(actions.last()) =~= actions);
    }
}

/// The order that the actions were typed in changes nothing: two ways of asking for the
/// same actions are the same plan.
///
/// A plan holds at most one kind of bootstrap, which is the one slot two different actions
/// can share.
pub proof fn law_typing_order_changes_nothing(left: Seq<Action>, right: Seq<Action>)
    requires
        left.to_multiset() == right.to_multiset(),
        !(left.contains(Action::Bootstrap(BootstrapTrigger::Requested)) && left.contains(
            Action::Bootstrap(BootstrapTrigger::Auto),
        )),
    ensures
        in_fixed_order(left) == in_fixed_order(right),
{
    lemma_same_slot(left, right, 0);
    lemma_same_slot(left, right, 5);
    lemma_same_slot(left, right, 10);
    lemma_same_slot(left, right, 20);
    lemma_same_slot(left, right, 30);
    lemma_same_slot(left, right, 40);
    lemma_same_slot(left, right, 50);
    lemma_same_slot(left, right, 60);
}

proof fn lemma_same_slot(left: Seq<Action>, right: Seq<Action>, slot: int)
    requires
        left.to_multiset() == right.to_multiset(),
        !(left.contains(Action::Bootstrap(BootstrapTrigger::Requested)) && left.contains(
            Action::Bootstrap(BootstrapTrigger::Auto),
        )),
    ensures
        of_slot(left, slot) == of_slot(right, slot),
{
    broadcast use vstd::seq_lib::group_to_multiset_ensures;

    let ours = of_slot(left, slot);
    let theirs = of_slot(right, slot);
    lemma_of_slot_members(left, slot);
    lemma_of_slot_members(right, slot);
    assert forall|action: Action|
        #[trigger] ours.to_multiset().count(action) == theirs.to_multiset().count(action) by {
        lemma_of_slot_counts(left, slot, action);
        lemma_of_slot_counts(right, slot, action);
    }
    assert(ours.to_multiset() =~= theirs.to_multiset());
    assert(ours.to_multiset().len() == theirs.to_multiset().len());
    assert forall|i: int| 0 <= i < ours.len() implies ours[i] == theirs[i] by {
        let mine = ours[i];
        let other = theirs[i];
        lemma_of_slot_counts(left, slot, mine);
        lemma_of_slot_counts(left, slot, other);
        assert(ours.contains(mine));
        assert(theirs.contains(other));
        assert(ours.to_multiset().count(mine) > 0);
        assert(theirs.to_multiset().count(other) > 0);
        assert(left.contains(mine));
        assert(left.contains(other));
        assert(mine.slot() == other.slot());
    }
    assert(ours =~= theirs);
}

/// How early an action runs, of those that are documented: the two reports, then bootstrap,
/// erase, write, verify, read and reboot.
pub open spec fn documented_place(action: Action) -> int {
    match action {
        Action::List => 0,
        Action::Diag => 1,
        Action::Bootstrap(_) => 2,
        Action::Erase => 3,
        Action::Write => 4,
        Action::Verify => 5,
        Action::Read => 6,
        Action::Reboot => 7,
    }
}

/// The fixed order is the documented one: nothing is written before the erase, nothing is
/// compared before it is written, and the reboot comes last.
pub proof fn law_the_order_is_the_documented_one(actions: Seq<Action>, early: int, late: int)
    requires
        0 <= early <= late < in_fixed_order(actions).len(),
    ensures
        documented_place(in_fixed_order(actions)[early]) <= documented_place(in_fixed_order(actions)[late]),
{
    law_actions_run_slot_by_slot(actions);
    assert(in_fixed_order(actions)[early].slot() <= in_fixed_order(actions)[late].slot());
}

/// What needs the gadget is what changes or reads the flash, and the reboot; what has an
/// alt-setting is what moves bytes to or from one.
pub proof fn law_what_an_action_needs(action: Action)
    ensures
        action.on_the_gadget() <==> !(action is List || action is Diag || action is Bootstrap),
        action.on_an_alt() <==> action is Write || action is Verify || action is Read,
{
}

} // verus!
