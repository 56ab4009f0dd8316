//! Exit codes: 0, 1, 2, 3 and 4, each from the thing that produces it.
use vstd::prelude::*;

use crate::model::Error;

verus! {

/// Everything worked.
pub const OK: u8 = 0;

/// A device error: init, bootstrap, probe, diagnostics, no alt-setting.
pub const DEVICE: u8 = 1;

/// A transfer error: write, read, erase, reboot, verify.
pub const TRANSFER: u8 = 2;

/// A file error.
pub const FILE: u8 = 3;

/// A protocol error, including a failed connect.
pub const PROTOCOL: u8 = 4;

/// Which operation was running when an error happened.
#[derive(Debug, Clone, Copy, PartialEq, Eq, Structural)]
pub enum OpClass {
    /// Init, bootstrap, probe, diagnostics, list.
    Device,
    /// Write, read, erase, reboot, verify.
    Transfer,
    /// Anything over the network.
    Remote,
}

/// The code of an operation that failed for no fault of a file.
pub open spec fn class_code(class: OpClass) -> u8 {
    match class {
        OpClass::Device => DEVICE,
        OpClass::Transfer => TRANSFER,
        OpClass::Remote => PROTOCOL,
    }
}

/// Is this a file's fault?
pub open spec fn is_a_file_error(error: Error) -> bool {
    error is Io || error is LoaderMissing
}

/// The exit code for `error`, given what was running.
///
/// A file error is a file error whatever the tool was doing at the time, locally and
/// through a daemon alike.
pub fn exit_code(error: &Error, class: OpClass) -> (code: u8)
    ensures
        code == (if is_a_file_error(*error) {
            FILE
        } else {
            class_code(class)
        }),
{
    match error {
        Error::Io(_) | Error::LoaderMissing(_) => FILE,
        _ => match class {
            OpClass::Device => DEVICE,
            OpClass::Transfer => TRANSFER,
            OpClass::Remote => PROTOCOL,
        },
    }
}

/// No failure exits as a success, only a file error exits as one, and which operation was
/// running can be read off every other code.
pub proof fn law_a_code_names_its_cause(left: OpClass, right: OpClass)
    ensures
        FILE != OK,
        class_code(left) != OK && class_code(left) != FILE,
        class_code(left) == class_code(right) <==> left == right,
{
}

/// The codes are the documented ones: 1 for the device, 2 for a transfer, 3 for a file and 4 for
/// the protocol.
pub proof fn law_the_codes_are_the_documented_ones(error: Error)
    ensures
        OK == 0,
        class_code(OpClass::Device) == 1,
        class_code(OpClass::Transfer) == 2,
        FILE == 3,
        class_code(OpClass::Remote) == 4,
        error is Io || error is LoaderMissing <==> is_a_file_error(error),
{
}

} // verus!
