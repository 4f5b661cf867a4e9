//! Decisions around inserting the final text into the focused application.

use vstd::prelude::*;
use crate::chars::same_text;

verus! {

pub enum InjectionError {
    Failed(String),
    AccessibilityPermissionRequired,
    WaylandNotSupported,
}

/// Whether the desktop session is Wayland, from `XDG_SESSION_TYPE` and
/// whether `WAYLAND_DISPLAY` is set.
pub fn is_wayland(session_type: &Option<String>, wayland_display_set: bool) -> (r: bool)
    ensures
        r == ((session_type is Some && session_type->Some_0@ == "wayland"@)
            || wayland_display_set),
{
    let by_type = match session_type {
        Some(t) => same_text(t.as_str(), "wayland"),
        None => false,
    };
    by_type || wayland_display_set
}

/// Whether text can be injected on an X11 desktop: not under Wayland.
pub fn check_accessibility(session_type: &Option<String>, wayland_display_set: bool) -> (r: bool)
    ensures
        r == !((session_type is Some && session_type->Some_0@ == "wayland"@)
            || wayland_display_set),
{
    !is_wayland(session_type, wayland_display_set)
}

} // verus!
