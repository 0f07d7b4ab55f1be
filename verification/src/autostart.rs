//! Starting with Windows: the registry value under the current user's `Run` key.

use vstd::prelude::*;

verus! {

/// The key, under `HKEY_CURRENT_USER`, whose values Windows starts at sign-in.
pub const RUN_KEY: &'static str = "Software\\Microsoft\\Windows\\CurrentVersion\\Run";

/// The name of the value that starts the application.
pub const RUN_VALUE_NAME: &'static str = "AntigravityPulse";

/// Starting with Windows is on when the value holds a command (a missing value reads as
/// empty).
pub fn auto_launch_enabled(registered: &str) -> (on: bool)
    ensures
        on == (registered@.len() > 0),
{
    !registered.is_empty()
}

} // verus!
