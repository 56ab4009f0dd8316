//! What goes over the wire, as this crate speaks of it.
use vstd::prelude::*;

use crate::model::copy_of;

verus! {

/// The variant of a SoC as a daemon names it: a number, and the name that number has.
#[derive(Debug, Clone, PartialEq, Eq)]
pub struct WireVariant {
    /// The number on the wire.
    pub ordinal: u8,
    /// Its name, where the table of names has one.
    pub name: Option<String>,
}

/// What a daemon reports for a SoC it could not identify.
pub const UNKNOWN_VARIANT: u8 = 0xFF;

/// One device on a daemon's bus.
#[derive(Debug, Clone, PartialEq, Eq)]
pub struct DeviceEntry {
    /// The bus it is on.
    pub bus: u8,
    /// The address it answers at.
    pub address: u8,
    /// The USB vendor.
    pub vendor: u16,
    /// The USB product.
    pub product: u16,
    /// Where it is in its boot: 0 in the bootrom, 1 in firmware, 2 the gadget.
    pub stage: u8,
    /// What SoC it is.
    pub variant: WireVariant,
}

impl DeviceEntry {
    /// The same entry again.
    pub(crate) fn copy(&self) -> (copy: DeviceEntry)
        ensures
            copy == *self,
    {
        DeviceEntry {
            bus: self.bus,
            address: self.address,
            vendor: self.vendor,
            product: self.product,
            stage: self.stage,
            variant: WireVariant { ordinal: self.variant.ordinal, name: copy_of(&self.variant.name) },
        }
    }
}

/// A pair of boot images.
#[derive(Debug, Clone, PartialEq, Eq)]
pub struct BootPair {
    /// The stage-1 image.
    pub spl: Vec<u8>,
    /// The U-Boot image.
    pub uboot: Vec<u8>,
}

/// A command.
#[derive(Debug, Clone, PartialEq, Eq)]
pub enum Request {
    /// List the devices.
    Discover,
    /// Read the eFuse report.
    Diag {
        /// Which device.
        index: u8,
    },
    /// USB-boot a bootrom.
    Bootstrap {
        /// Which device.
        index: u8,
        /// The loaders to use out of the daemon's tree; empty for none.
        variant: Vec<u8>,
        /// The loaders to use instead.
        blobs: Option<BootPair>,
    },
    /// Write an image to an alt-setting.
    Write {
        /// Which device.
        index: u8,
        /// Always empty: a gadget has no SoC to name.
        variant: Vec<u8>,
        /// The alt-setting; empty for the daemon's choice.
        alt: Vec<u8>,
        /// The image.
        image: Vec<u8>,
        /// The CRC-32 of the image.
        crc32: u32,
        /// Whether to verify it; `None` is to say nothing about that.
        verify: Option<bool>,
    },
    /// Read an alt-setting.
    Read {
        /// Which device.
        index: u8,
        /// Always empty: a gadget has no SoC to name.
        variant: Vec<u8>,
        /// The alt-setting, where one was named.
        alt: Option<Vec<u8>>,
    },
    /// Reboot a device.
    Reboot {
        /// Which device.
        index: u8,
    },
}

/// The alt-setting that erases.
pub const ERASE_ALT: &'static str = "erase";

/// What is written to it.
pub const ERASE_TOKEN: &'static str = "XBURST-FLASH-WIPE";

} // verus!
