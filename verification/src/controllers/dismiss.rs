//! Dismissal of a floating surface: an outside click, Escape, or focus
//! moving elsewhere closes it.
use vstd::prelude::*;

use crate::text::{attr_equals, attr_is, str_eq};

verus! {

/// A click or a focus change whose target lies in neither the floating
/// element nor its trigger dismisses.
pub fn outside_dismisses(in_floating: bool, in_trigger: bool) -> (r: bool)
    ensures
        r == (!in_floating && !in_trigger),
{
    !(in_floating || in_trigger)
}

/// The floating element counts as active when it has `data-state="open"`
/// or contains the focused element.
pub fn floating_is_active(data_state: &Option<String>, contains_focus: bool) -> (r: bool)
    ensures
        r == (attr_is(*data_state, "open"@) || contains_focus),
{
    if attr_equals(data_state, "open") {
        return true;
    }
    contains_focus
}

/// Escape dismisses (with `preventDefault`) while the floating element is
/// active; other keys do nothing.
pub fn escape_dismisses(key: &str, active: bool) -> (r: bool)
    ensures
        r == (key@ == "Escape"@ && active),
{
    if !str_eq(key, "Escape") {
        return false;
    }
    active
}

} // verus!
