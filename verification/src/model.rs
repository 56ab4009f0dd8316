//! What the device and protocol layers report, as this crate reads it.
use vstd::prelude::*;

verus! {

/// Where a device is in its boot.
#[derive(Debug, Clone, Copy, PartialEq, Eq, Structural)]
pub enum Stage {
    /// The mask ROM, waiting for a stage-1 image.
    Bootrom,
    /// Vendor firmware.
    Firmware,
    /// U-Boot, offering DFU.
    Gadget,
}

impl Stage {
    /// The word for this stage, as the tables print it.
    pub open spec fn word(self) -> Seq<char> {
        match self {
            Stage::Bootrom => "bootrom"@,
            Stage::Firmware => "firmware"@,
            Stage::Gadget => "gadget"@,
        }
    }

    /// The word for this stage.
    pub fn name(&self) -> (name: &'static str)
        ensures
            name@ == self.word(),
    {
        match self {
            Stage::Bootrom => "bootrom",
            Stage::Firmware => "firmware",
            Stage::Gadget => "gadget",
        }
    }
}

/// What enumeration knows about one device.
#[derive(Debug, Clone, PartialEq, Eq)]
pub struct DeviceDescriptors {
    /// The USB vendor.
    pub vendor_id: u16,
    /// The USB product.
    pub product_id: u16,
    /// The bus it is on.
    pub bus: u8,
    /// The address it answers at.
    pub address: u8,
    /// The ports between the bus and the device; empty where the platform does not say.
    pub port_path: Vec<u8>,
}

impl DeviceDescriptors {
    /// Do two descriptions say the same?
    pub open spec fn same(self, other: DeviceDescriptors) -> bool {
        &&& self.vendor_id == other.vendor_id
        &&& self.product_id == other.product_id
        &&& self.bus == other.bus
        &&& self.address == other.address
        &&& self.port_path@ == other.port_path@
    }

    /// The same description again.
    pub(crate) fn copy(&self) -> (copy: DeviceDescriptors)
        ensures
            copy.same(*self),
    {
        DeviceDescriptors {
            vendor_id: self.vendor_id,
            product_id: self.product_id,
            bus: self.bus,
            address: self.address,
            port_path: copy_bytes(&self.port_path),
        }
    }
}

/// The same bytes again.
pub(crate) fn copy_bytes(bytes: &[u8]) -> (copy: Vec<u8>)
    ensures
        copy@ == bytes@,
{
    vstd::slice::slice_to_vec(bytes)
}

/// Which DFU alt-setting was asked for.
#[derive(Debug, Clone, PartialEq, Eq)]
pub enum AltSel {
    /// None was named.
    Default,
    /// By `bAlternateSetting`.
    Index(u8),
    /// By name.
    Name(String),
}

/// A SoC variant: the loaders that boot it.
#[derive(Debug, Clone, PartialEq, Eq)]
pub struct Variant {
    /// The directory that holds them, which is also what `--cpu` calls them.
    pub loader_dir: String,
}

/// How many alt-settings one device can offer.
pub const MAX_ALTS: u8 = 32;

/// One alt-setting that a gadget offers.
#[derive(Debug, Clone, PartialEq, Eq)]
pub struct DfuAlt {
    /// Its `bAlternateSetting`.
    pub alt: u8,
    /// Its name; empty where the string could not be read.
    pub name: String,
}

/// What a probe found on a gadget.
#[derive(Debug, Clone, PartialEq, Eq)]
pub struct DfuInfo {
    /// The alt-settings, in descriptor order.
    pub alts: Vec<DfuAlt>,
    /// How many bytes one transfer moves.
    pub transfer_size: u16,
    /// The DFU version, in binary-coded decimal.
    pub bcd_dfu: u16,
}

/// The identification registers of a SoC.
#[derive(Debug, Clone, Copy, PartialEq, Eq, Structural)]
pub struct SocRegs {
    /// The whole identification word.
    pub soc_id: u32,
    /// The part of it that names the family.
    pub cpu_id: u16,
    /// The grade half of `subsoctype1`.
    pub sub1: u16,
    /// The grade half of `subsoctype2`.
    pub sub2: u16,
    /// The grade byte of the T33 selector, where it was read.
    pub t33_grade: Option<u8>,
}

/// Which register grades a family.
#[derive(Debug, Clone, Copy, PartialEq, Eq, Structural)]
pub enum GradeSource {
    /// `subsoctype1`.
    SubSocType1,
    /// `subsoctype2`.
    SubSocType2,
    /// The T33 selector.
    T33Selector,
    /// A register this crate has no reading of.
    Other,
}

/// A SoC family.
#[derive(Debug, Clone, PartialEq, Eq)]
pub struct Family {
    /// What it is called.
    pub name: String,
    /// The register that grades it.
    pub grade_source: GradeSource,
}

/// A SoC that was told apart from every other.
#[derive(Debug, Clone, PartialEq, Eq)]
pub struct Resolved {
    /// The chip.
    pub chip: String,
    /// The loaders that boot it.
    pub variant: Variant,
    /// The memory those loaders initialise, where it is documented.
    pub dram: Option<String>,
}

/// What the registers of a bootrom say it is.
#[derive(Debug, Clone, PartialEq, Eq)]
pub enum Answer {
    /// One chip.
    Resolved(Resolved),
    /// A grade that names more than one chip, or none that is documented.
    Ambiguous {
        /// What was read.
        regs: SocRegs,
        /// The family it belongs to.
        family: Family,
        /// What it may be, each as a line of its own.
        candidates: Vec<String>,
    },
    /// Nothing in the table.
    Unknown {
        /// What was read.
        regs: SocRegs,
    },
}

/// An answer, and what qualifies it.
#[derive(Debug, Clone, PartialEq, Eq)]
pub struct Detection {
    /// What the operator should know about the answer.
    pub warning: Option<String>,
    /// The answer.
    pub answer: Answer,
}

/// What an operation is saying about itself.
#[derive(Debug, Clone, PartialEq, Eq)]
pub enum Progress {
    /// A line to keep.
    Note(String),
    /// A new phase begins.
    Phase,
    /// A byte counter.
    Bytes {
        /// What the phase is called.
        phase: String,
        /// Bytes so far.
        done: u64,
        /// Bytes in all, where that is known.
        total: Option<u64>,
        /// The two counts, in words.
        counted: String,
    },
    /// Narration, which is not for the screen.
    Debug(String),
}

/// A phase of an operation, as the wire names it.
#[derive(Debug, Clone, PartialEq, Eq)]
pub struct Phase {
    /// Its byte on the wire.
    pub byte: u8,
    /// What it is called.
    pub name: String,
}

/// The kind of failure that the operating system reports.
#[derive(Debug, Clone, Copy, PartialEq, Eq, Structural)]
pub enum IoKind {
    /// No such file.
    NotFound,
    /// Not permitted.
    PermissionDenied,
    /// Nothing listens there.
    ConnectionRefused,
    /// The peer reset the connection.
    ConnectionReset,
    /// The connection was aborted.
    ConnectionAborted,
    /// No route to the host.
    HostUnreachable,
    /// No route to the network.
    NetworkUnreachable,
    /// Nobody reads the other end.
    BrokenPipe,
    /// It is there already.
    AlreadyExists,
    /// The call would have had to wait.
    WouldBlock,
    /// A part of the path is not a directory.
    NotADirectory,
    /// The path is a directory.
    IsADirectory,
    /// The file system cannot be written.
    ReadOnlyFilesystem,
    /// The request made no sense.
    InvalidInput,
    /// The data made no sense.
    InvalidData,
    /// A deadline expired.
    TimedOut,
    /// Nothing could be written.
    WriteZero,
    /// The disk is full.
    StorageFull,
    /// The call was interrupted.
    Interrupted,
    /// The data ended early.
    UnexpectedEof,
    /// Anything else.
    Other,
}

/// A failure of a local file, with what it says.
#[derive(Debug, Clone, PartialEq, Eq)]
pub struct FileError {
    /// What kind of failure it is.
    pub kind: IoKind,
    /// What it says.
    pub message: String,
}

/// Why an operation on a device failed.
#[derive(Debug, Clone, PartialEq, Eq)]
pub enum Error {
    /// A local file.
    Io(FileError),
    /// A loader that is not there.
    LoaderMissing(String),
    /// A request that makes no sense for what is there.
    Invalid(String),
    /// The device offers no alt-setting of this name, and more than one of others.
    MissingAlt(&'static str),
    /// A SoC whose grade does not name one chip.
    Ambiguous {
        /// What was read.
        regs: SocRegs,
        /// What it may be.
        candidates: Vec<String>,
    },
    /// A SoC that is not in the table.
    UnknownSoc {
        /// What was read.
        regs: SocRegs,
    },
    /// The conversation with a daemon.
    Protocol(String),
    /// Anything else the device layers report, as they word it.
    Other(String),
}

/// A copy of an optional text.
pub(crate) fn copy_of(text: &Option<String>) -> (copy: Option<String>)
    ensures
        copy == *text,
{
    match text {
        Some(text) => Some(text.clone()),
        None => None,
    }
}

} // verus!
