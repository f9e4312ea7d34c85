//! The direct input-method operations on a platform that offers neither an
//! authoritative get/set call nor a probe: both report the unsupported
//! condition. The remediation guidance — which system tools to use instead —
//! stands in the error's message text.

use vstd::prelude::*;
use crate::error::SwitchError;

verus! {

/// Reads the current input method. Without a platform interface there is
/// nothing to read: always the unsupported condition.
pub fn get_input_method() -> (r: Result<String, SwitchError>)
    ensures
        r == Err::<String, SwitchError>(SwitchError::Unsupported),
{
    Err(SwitchError::Unsupported)
}

/// Switches to the named input method. Without a platform interface there
/// is nothing to switch: always the unsupported condition, whatever the
/// requested method.
pub fn switch_input_method(input_method: &str) -> (r: Result<(), SwitchError>)
    ensures
        r == Err::<(), SwitchError>(SwitchError::Unsupported),
{
    Err(SwitchError::Unsupported)
}

} // verus!
