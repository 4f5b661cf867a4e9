//! Errors of global hotkey registration.

use vstd::prelude::*;

verus! {

pub enum HotkeyError {
    ManagerError(String),
    RegisterError(String),
}

} // verus!
