//! `-l`: what is on the bus, and what each device is.
//!
//! A bootrom is opened and identified. Anything else is listed as it enumerates and is not
//! touched: a listing must not disturb a gadget that somebody else is flashing. A device
//! that will not open keeps its row, with the reason in it.
use vstd::prelude::*;

use crate::model::{DeviceDescriptors, Detection, Stage};

verus! {

/// Everything on the bus, in bus order.
#[derive(Debug, Clone, PartialEq, Eq)]
pub struct Listing {
    /// One entry per Ingenic device.
    pub rows: Vec<Row>,
}

impl Listing {
    /// Nothing on the bus, which is not an error.
    pub fn empty() -> (listing: Self)
        ensures
            listing.rows@.len() == 0,
    {
        Listing { rows: Vec::new() }
    }

    /// Were there no Ingenic devices at all?
    pub fn is_empty(&self) -> (empty: bool)
        ensures
            empty == (self.rows@.len() == 0),
    {
        self.rows.len() == 0
    }
}

/// One device.
#[derive(Debug, Clone, PartialEq, Eq)]
pub struct Row {
    /// Position in the listing, which is the number `-i` takes.
    pub index: usize,
    /// What enumeration knows.
    pub descriptors: DeviceDescriptors,
    /// Where it is in its boot. `None` is a device that cannot be told.
    pub stage: Option<Stage>,
    /// What the SoC is, where asking was appropriate and possible.
    pub soc: Soc,
}

/// The chip behind a row.
#[derive(Debug, Clone, PartialEq, Eq)]
pub enum Soc {
    /// Not a bootrom, so nothing was asked and nothing is guessed.
    NotProbed,
    /// Detection ran.
    Detected(Detection),
    /// The device could not be opened, or its registers could not be read.
    Unavailable(Unavailable),
}

/// Why a bootrom could not be identified, and what to do about it.
#[derive(Debug, Clone, PartialEq, Eq)]
pub struct Unavailable {
    /// What went wrong, in the words of whatever produced it.
    pub reason: String,
    /// The fix, where there is a known one.
    pub hint: Option<&'static str>,
}

/// What kind of failure the USB layer reports.
#[derive(Debug, Clone, Copy, PartialEq, Eq, Structural)]
pub enum UsbKind {
    /// The operating system refuses.
    AccessDenied,
    /// Anything else.
    Other,
}

/// What came of identifying a bootrom.
#[derive(Debug, Clone, PartialEq, Eq)]
pub enum Identity {
    /// It did not open.
    NotOpened {
        /// The kind of failure.
        kind: UsbKind,
        /// What it says.
        reason: String,
    },
    /// It opened, and its registers could not be read.
    NotRead {
        /// The kind of failure, where the USB layer raised it.
        kind: Option<UsbKind>,
        /// What it says.
        reason: String,
    },
    /// Its registers were read.
    Read(Detection),
}

/// One device as enumeration found it.
#[derive(Debug, Clone, PartialEq, Eq)]
pub struct Found {
    /// What enumeration knows.
    pub descriptors: DeviceDescriptors,
    /// Where it is in its boot, from its descriptors.
    pub stage: Option<Stage>,
    /// What identifying it gave, where it was identified.
    pub identity: Option<Identity>,
}

/// The fix for a refused device, and only for that.
fn access_denied_hint(kind: UsbKind, hint: &'static str) -> (known: Option<&'static str>)
    ensures
        known == (if kind is AccessDenied {
            Some(hint)
        } else {
            None
        }),
{
    if matches!(kind, UsbKind::AccessDenied) {
        Some(hint)
    } else {
        None
    }
}

impl Unavailable {
    /// A failure to open.
    fn from_usb(kind: UsbKind, reason: String, hint: &'static str) -> (unavailable: Self)
        ensures
            unavailable.reason == reason,
            unavailable.hint == (if kind is AccessDenied {
                Some(hint)
            } else {
                None
            }),
    {
        Unavailable { reason, hint: access_denied_hint(kind, hint) }
    }

    /// A failure once open.
    fn from_core(kind: Option<UsbKind>, reason: String, hint: &'static str) -> (unavailable: Self)
        ensures
            unavailable.reason == reason,
            unavailable.hint == (if kind == Some(UsbKind::AccessDenied) {
                Some(hint)
            } else {
                None
            }),
    {
        let hint = match kind {
            Some(kind) => access_denied_hint(kind, hint),
            None => None,
        };
        Unavailable { reason, hint }
    }
}

/// Is a device in this stage opened by a listing?
///
/// A bootrom is, to read three registers, which executes nothing. Nothing else is.
pub fn is_identified(stage: Option<Stage>) -> (opened: bool)
    ensures
        opened == (stage == Some(Stage::Bootrom)),
{
    matches!(stage, Some(Stage::Bootrom))
}

/// What a row says of the chip, from what identifying it gave.
pub open spec fn identified(identity: Identity, hint: &'static str, soc: Soc) -> bool {
    match identity {
        Identity::NotOpened { kind, reason } => soc matches Soc::Unavailable(unavailable) && unavailable.reason
            == reason && unavailable.hint == (if kind is AccessDenied {
            Some(hint)
        } else {
            None
        }),
        Identity::NotRead { kind, reason } => soc matches Soc::Unavailable(unavailable) && unavailable.reason == reason
            && unavailable.hint == (if kind == Some(UsbKind::AccessDenied) {
            Some(hint)
        } else {
            None
        }),
        Identity::Read(detection) => soc == Soc::Detected(detection),
    }
}

/// What a row says of the chip. `hint` is the platform's fix for a refused device.
pub fn identify(identity: Identity, hint: &'static str) -> (soc: Soc)
    ensures
        identified(identity, hint, soc),
{
    match identity {
        Identity::NotOpened { kind, reason } => Soc::Unavailable(Unavailable::from_usb(kind, reason, hint)),
        Identity::NotRead { kind, reason } => Soc::Unavailable(Unavailable::from_core(kind, reason, hint)),
        Identity::Read(detection) => Soc::Detected(detection),
    }
}

/// Is `row` the row of a device that was found at `index`?
pub open spec fn is_row_of(row: Row, index: int, found: Found, hint: &'static str) -> bool {
    &&& row.index == index
    &&& row.descriptors == found.descriptors
    &&& row.stage == found.stage
    &&& if found.stage == Some(Stage::Bootrom) && found.identity is Some {
        identified(found.identity->0, hint, row.soc)
    } else {
        row.soc is NotProbed
    }
}

/// The listing of every device that enumeration found, each with a row of its own.
///
/// No device's failure reaches another's row, and only a bootrom's row says anything of
/// the chip.
pub fn list(found: Vec<Found>, hint: &'static str) -> (listing: Listing)
    ensures
        listing.rows@.len() == found@.len(),
        forall|i: int| 0 <= i < found@.len() ==> is_row_of(#[trigger] listing.rows[i], i, found[i], hint),
{
    let mut rows: Vec<Row> = Vec::new();
    let mut left = found;
    let ghost all = left@;
    let mut index: usize = 0;
    let count = left.len();
    while index < count
        invariant
            index <= count == all.len(),
            left@ == all.skip(index as int),
            rows@.len() == index,
            forall|i: int| 0 <= i < index ==> is_row_of(#[trigger] rows[i], i, all[i], hint),
        decreases count - index,
    {
        let device = left.remove(0);
        assert(left@ =~= all.skip(index + 1));
        let soc = match device.identity {
            Some(identity) => {
                if is_identified(device.stage) {
                    identify(identity, hint)
                } else {
                    Soc::NotProbed
                }
            },
            None => Soc::NotProbed,
        };
        rows.push(Row { index, descriptors: device.descriptors, stage: device.stage, soc });
        index += 1;
    }
    Listing { rows }
}

/// A gadget invents no variant: only a bootrom's row carries an answer about the chip.
pub proof fn law_only_a_bootrom_is_identified(row: Row, index: int, found: Found, hint: &'static str)
    requires
        is_row_of(row, index, found, hint),
        row.stage != Some(Stage::Bootrom),
    ensures
        row.soc is NotProbed,
{
}

/// A row is its device's own: the number is the position it was found at, which is what `-i`
/// takes, and what it says of the chip is what was read of that device.
pub proof fn law_a_row_is_its_devices_own(row: Row, index: int, found: Found, hint: &'static str)
    requires
        is_row_of(row, index, found, hint),
    ensures
        row.index == index,
        row.descriptors == found.descriptors,
        row.stage == found.stage,
        found.stage == Some(Stage::Bootrom) ==> (found.identity matches Some(Identity::Read(detection)) ==> row.soc
            == Soc::Detected(detection)),
        row.soc is Detected ==> found.stage == Some(Stage::Bootrom) && (found.identity matches Some(Identity::Read(_))),
{
}

} // verus!
