//! Which device `-i` names, and what stage it is in.
//!
//! A device that cannot be told is never taken for a bootrom: the gadget and the bootrom
//! share one product ID, so an upload to it could hit a device that is being flashed.
use vstd::prelude::*;
use vstd::string::*;

use crate::model::{DeviceDescriptors, Error, Stage};
use crate::text::push_decimal;

verus! {

/// What to do about a bus with no Ingenic device on it.
pub const EMPTY_BUS_ADVICE: &'static str = "power-cycle the camera into the bootrom, or pass --wait";

/// What is said when a device's USB port path came back empty.
pub const UNREADABLE_PORT: &'static str = "the device's USB port path could not be read, so the DFU gadget it re-enumerates as cannot be told apart from any other gadget on the bus: replug the camera and run this again, or, once it is a U-Boot DFU gadget, name it with -i from the -l listing";

/// One device on the bus.
#[derive(Debug, Clone, PartialEq, Eq)]
pub struct Discovered {
    /// What enumeration knows about it.
    pub descriptors: DeviceDescriptors,
    /// Where it is in its boot, from its descriptors.
    pub stage: Option<Stage>,
}

/// The device an operation will run against.
#[derive(Debug, Clone, PartialEq, Eq)]
pub struct Selected {
    /// The `-i` number.
    pub index: u8,
    /// Its position in the listing it was picked from.
    pub id: usize,
    /// What enumeration knows about it.
    pub descriptors: DeviceDescriptors,
    /// Where it is in its boot; `None` for a device that cannot be told.
    pub stage: Option<Stage>,
}

/// How a stage is described in a refusal.
pub open spec fn description(stage: Option<Stage>) -> Seq<char> {
    match stage {
        Some(Stage::Bootrom) => "in the bootrom"@,
        Some(Stage::Gadget) => "a U-Boot DFU gadget"@,
        Some(Stage::Firmware) => "running vendor firmware"@,
        None => "of an unrecognised kind"@,
    }
}

impl Selected {
    /// May a bootstrap run against this device?
    pub fn is_bootrom(&self) -> (yes: bool)
        ensures
            yes == (self.stage == Some(Stage::Bootrom)),
    {
        matches!(self.stage, Some(Stage::Bootrom))
    }

    /// Is this the U-Boot DFU gadget every transfer needs?
    pub fn is_gadget(&self) -> (yes: bool)
        ensures
            yes == (self.stage == Some(Stage::Gadget)),
    {
        matches!(self.stage, Some(Stage::Gadget))
    }

    /// How to describe it in a refusal.
    pub fn describe(&self) -> (phrase: &'static str)
        ensures
            phrase@ == description(self.stage),
    {
        match self.stage {
            Some(Stage::Bootrom) => "in the bootrom",
            Some(Stage::Gadget) => "a U-Boot DFU gadget",
            Some(Stage::Firmware) => "running vendor firmware",
            None => "of an unrecognised kind",
        }
    }

    /// Is this the device at a position of a listing?
    pub open spec fn is_at(self, listing: Seq<Discovered>, position: int) -> bool {
        &&& 0 <= position < listing.len()
        &&& self.id == position
        &&& self.descriptors.same(listing[position].descriptors)
        &&& self.stage == listing[position].stage
    }
}

/// What is said of an index that is past the end of the listing.
pub open spec fn no_such_index(index: u8, count: nat) -> Seq<char> {
    if count == 0 {
        "no Ingenic devices on the bus: "@ + EMPTY_BUS_ADVICE@
    } else if count == 1 {
        "-i "@ + crate::text::decimal(index as nat) + ": there is 1 Ingenic device, index 0"@
    } else {
        "-i "@ + crate::text::decimal(index as nat) + ": there are "@ + crate::text::decimal(count)
            + " Ingenic devices, indexes 0-"@ + crate::text::decimal((count - 1) as nat)
    }
}

/// Pick the device `-i` names.
///
/// # Errors
/// [`Error::Invalid`] when the index is past the end of the listing, naming how many
/// devices there are.
pub fn select(listing: &Vec<Discovered>, index: u8) -> (selected: Result<Selected, Error>)
    ensures
        match selected {
            Ok(device) => index < listing.len() && device.index == index && device.is_at(listing@, index as int),
            Err(error) => index >= listing.len() && (error matches Error::Invalid(message) && message@
                == no_such_index(index, listing@.len())),
        },
{
    let count = listing.len();
    if (index as usize) < count {
        let device = &listing[index as usize];
        return Ok(
            Selected {
                index,
                id: index as usize,
                descriptors: device.descriptors.copy(),
                stage: device.stage,
            },
        );
    }
    let mut message: String;
    if count == 0 {
        message = "no Ingenic devices on the bus: ".to_owned();
        message.append(EMPTY_BUS_ADVICE);
    } else if count == 1 {
        message = "-i ".to_owned();
        push_decimal(&mut message, index as u64);
        message.append(": there is 1 Ingenic device, index 0");
    } else {
        message = "-i ".to_owned();
        push_decimal(&mut message, index as u64);
        message.append(": there are ");
        push_decimal(&mut message, count as u64);
        message.append(" Ingenic devices, indexes 0-");
        push_decimal(&mut message, (count - 1) as u64);
    }
    Err(Error::Invalid(message))
}

/// Is there a gadget on this port at this position?
pub open spec fn is_gadget_on(listing: Seq<Discovered>, position: int, port_path: Seq<u8>) -> bool {
    &&& 0 <= position < listing.len()
    &&& listing[position].stage == Some(Stage::Gadget)
    &&& listing[position].descriptors.port_path@ == port_path
}

/// The index by which `-i` names a position, as far as one byte can.
pub open spec fn addressable(position: int) -> int {
    if position > 255 {
        255
    } else {
        position
    }
}

/// Find the device that re-enumerated on `port_path`, whatever index it landed on.
///
/// # Errors
/// [`Error::Invalid`] when `port_path` is empty: no gadget on the bus could then be told
/// from any other.
pub fn find_gadget(listing: &Vec<Discovered>, port_path: &[u8]) -> (found: Result<Option<Selected>, Error>)
    ensures
        match found {
            Err(error) => port_path@.len() == 0 && (error matches Error::Invalid(message) && message@
                == UNREADABLE_PORT@),
            Ok(None) => port_path@.len() > 0 && forall|i: int| !is_gadget_on(listing@, i, port_path@),
            Ok(Some(device)) => {
                &&& port_path@.len() > 0
                &&& device.is_at(listing@, device.id as int)
                &&& is_gadget_on(listing@, device.id as int, port_path@)
                &&& forall|i: int| i < device.id ==> !is_gadget_on(listing@, i, port_path@)
                &&& device.index == addressable(device.id as int)
            },
        },
{
    if port_path.len() == 0 {
        return Err(Error::Invalid(UNREADABLE_PORT.to_owned()));
    }
    let mut position: usize = 0;
    while position < listing.len()
        invariant
            position <= listing.len(),
            port_path@.len() > 0,
            forall|i: int| i < position ==> !is_gadget_on(listing@, i, port_path@),
        decreases listing.len() - position,
    {
        let device = &listing[position];
        if matches!(device.stage, Some(Stage::Gadget)) && same_bytes(&device.descriptors.port_path, port_path) {
            let index: u8 = if position > 255 { 255 } else { position as u8 };
            return Ok(
                Some(
                    Selected {
                        index,
                        id: position,
                        descriptors: device.descriptors.copy(),
                        stage: Some(Stage::Gadget),
                    },
                ),
            );
        }
        position += 1;
    }
    Ok(None)
}

fn same_bytes(left: &[u8], right: &[u8]) -> (same: bool)
    ensures
        same == (left@ == right@),
{
    if left.len() != right.len() {
        return false;
    }
    let mut at: usize = 0;
    while at < left.len()
        invariant
            left@.len() == right@.len(),
            at <= left@.len(),
            forall|i: int| 0 <= i < at ==> left@[i] == right@[i],
        decreases left@.len() - at,
    {
        if left[at] != right[at] {
            return false;
        }
        at += 1;
    }
    assert(left@ =~= right@);
    true
}

} // verus!
