use vstd::prelude::*;
use vstd::string::StringSliceAdditionalSpecFns;
use crate::service::{decimal_bytes, push_bytes, push_decimal};

verus! {

/// The registry call that a step of changing the autostart entry makes.
#[derive(Clone, Copy, PartialEq, Eq, Debug)]
pub enum RegistryStep {
    /// Opening the per-user `Run` key for writing.
    OpenKey,
    /// Writing the entry (autostart on).
    SetValue,
    /// Deleting the entry (autostart off).
    DeleteValue,
}

/// A registry call that failed, with the Win32 error code it returned.
#[derive(Clone, Copy, PartialEq, Eq, Debug)]
pub struct AutostartError {
    pub step: RegistryStep,
    pub code: u32,
}

/// `ERROR_FILE_NOT_FOUND`: deleting an entry that is not there.
pub const ERROR_FILE_NOT_FOUND: u32 = 2;

/// Whether a registry call succeeded for the purpose of the autostart
/// setting: status 0, or, when deleting, an entry that was already absent.
pub open spec fn registry_step_ok(step: RegistryStep, code: u32) -> bool {
    code == 0 || (step == RegistryStep::DeleteValue && code == ERROR_FILE_NOT_FOUND)
}

/// Judges the status that a registry call returned (see
/// `registry_step_ok`); a failure names the call and the code.
pub fn registry_outcome(step: RegistryStep, code: u32) -> (r: Result<(), AutostartError>)
    ensures
        r is Ok <==> registry_step_ok(step, code),
        r matches Err(e) ==> e.step == step && e.code == code,
{
    if code == 0 {
        return Ok(());
    }
    match step {
        RegistryStep::DeleteValue => {
            if code == ERROR_FILE_NOT_FOUND {
                Ok(())
            } else {
                Err(AutostartError { step, code })
            }
        },
        _ => Err(AutostartError { step, code }),
    }
}

/// The name of the Win32 function that a step calls.
pub open spec fn call_name(step: RegistryStep) -> Seq<u8> {
    match step {
        RegistryStep::OpenKey => "RegOpenKeyExW".spec_bytes(),
        RegistryStep::SetValue => "RegSetValueExW".spec_bytes(),
        RegistryStep::DeleteValue => "RegDeleteValueW".spec_bytes(),
    }
}

/// The text that reports a failed registry call: the function's name, then
/// ` failed with error ` and the code in decimal.
pub open spec fn error_text(e: AutostartError) -> Seq<u8> {
    call_name(e.step) + " failed with error ".spec_bytes() + decimal_bytes(e.code as nat)
}

/// The report of a failed registry call, as UTF-8 text.
pub fn error_message(e: AutostartError) -> (text: Vec<u8>)
    ensures
        text@ == error_text(e),
{
    let mut text: Vec<u8> = Vec::new();
    match e.step {
        RegistryStep::OpenKey => push_bytes(&mut text, "RegOpenKeyExW".as_bytes()),
        RegistryStep::SetValue => push_bytes(&mut text, "RegSetValueExW".as_bytes()),
        RegistryStep::DeleteValue => push_bytes(&mut text, "RegDeleteValueW".as_bytes()),
    }
    push_bytes(&mut text, " failed with error ".as_bytes());
    push_decimal(&mut text, e.code as usize);
    assert(text@ =~= error_text(e));
    text
}

} // verus!
