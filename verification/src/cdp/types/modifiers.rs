//! The bits of held modifier keys.

use vstd::prelude::*;

verus! {

/// Alt, or Option.
pub const ALT: i32 = 1;

/// Control.
pub const CTRL: i32 = 2;

/// Command, or the Windows key.
pub const META: i32 = 4;

/// Shift.
pub const SHIFT: i32 = 8;

} // verus!
