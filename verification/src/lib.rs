//! Audio session control logic: reading session identifiers, naming sessions,
//! per-application output routing, per-process handle caches, device descriptions
//! and the placement of the tray flyout window.

use vstd::prelude::*;

pub mod audio;
pub mod autostart;
pub mod text;
pub mod window;

verus! {
} // verus!
