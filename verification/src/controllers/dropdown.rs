//! Dropdown menu: a `<details>` whose `<summary>` opens a floating
//! `role="menu"` of menu items.
use vstd::prelude::*;

use crate::text::{attr_equals, attr_is};

verus! {

/// Placement used when the element has no `data-placement`.
pub fn placement_or_default(attr: Option<String>) -> (r: String)
    ensures
        r@ == match attr {
            Some(p) => p@,
            None => "bottom-start"@,
        },
{
    match attr {
        Some(p) => p,
        None => String::from_str("bottom-start"),
    }
}

/// A click inside the menu closes it when it lands on an enabled menu item:
/// `role="menuitem"` and not `aria-disabled="true"`.
pub fn activation_closes(role: &Option<String>, aria_disabled: &Option<String>) -> (r: bool)
    ensures
        r == (attr_is(*role, "menuitem"@) && !attr_is(*aria_disabled, "true"@)),
{
    if !attr_equals(role, "menuitem") {
        return false;
    }
    if attr_equals(aria_disabled, "true") {
        return false;
    }
    true
}

/// How a programmatic close proceeds.
#[derive(Clone, Copy, Debug, PartialEq, Eq, Structural)]
pub enum CloseRequest {
    /// The menu is already closed: only flush the per-open listeners.
    Flush,
    /// Remove `open` (the `toggle` event then tidies up) and focus the
    /// summary.
    RemoveOpen,
}

pub fn request_close(is_open: bool) -> (r: CloseRequest)
    ensures
        r == (if is_open {
            CloseRequest::RemoveOpen
        } else {
            CloseRequest::Flush
        }),
{
    if is_open {
        CloseRequest::RemoveOpen
    } else {
        CloseRequest::Flush
    }
}

/// `aria-expanded` of the summary and `data-state` of the `<details>`.
pub fn state_attrs(open: bool) -> (r: (&'static str, &'static str))
    ensures
        r.0@ == (if open {
            "true"@
        } else {
            "false"@
        }),
        r.1@ == (if open {
            "open"@
        } else {
            "closed"@
        }),
{
    if open {
        ("true", "open")
    } else {
        ("false", "closed")
    }
}

} // verus!
