//! Dialog: a native `<dialog>` opened by a trigger, closed by Escape or a
//! backdrop click, with focus kept inside while open.
use vstd::prelude::*;

use crate::text::str_eq;

verus! {

/// The `data-state` of a dialog.
pub fn state_str(open: bool) -> (r: &'static str)
    ensures
        r@ == (if open {
            "open"@
        } else {
            "closed"@
        }),
{
    if open {
        "open"
    } else {
        "closed"
    }
}

/// Where Tab moves focus among `len` focusable elements: forward (or
/// backward with Shift) from the focused one, wrapping at the ends; to the
/// first element when focus is on none of them.
pub open spec fn trap_target(current: Option<usize>, len: int, shift: bool) -> int {
    match current {
        Some(i) => if shift {
            if i == 0 {
                len - 1
            } else {
                i - 1
            }
        } else if i == len - 1 {
            0
        } else {
            i + 1
        },
        None => 0,
    }
}

/// The element Tab moves focus to, or `None` (focus stays where it is)
/// when the dialog holds no focusable element. `current` is the position of
/// the focused element among the `len` focusable ones, if it is one of
/// them.
pub fn trap_focus(current: Option<usize>, len: usize, shift: bool) -> (r: Option<usize>)
    requires
        current is Some ==> current->0 < len,
    ensures
        len == 0 ==> r is None,
        len > 0 ==> r == Some(trap_target(current, len as int, shift) as usize),
        r matches Some(t) ==> t < len,
{
    if len == 0 {
        return None;
    }
    match current {
        Some(idx) => {
            if shift {
                if idx == 0 {
                    Some(len - 1)
                } else {
                    Some(idx - 1)
                }
            } else if idx == len - 1 {
                Some(0)
            } else {
                Some(idx + 1)
            }
        },
        None => Some(0),
    }
}

/// Tab then Shift+Tab (or the reverse) returns focus to where it was.
pub proof fn lemma_trap_round_trip(i: usize, len: usize, shift: bool)
    requires
        i < len,
    ensures
        trap_target(Some(trap_target(Some(i), len as int, shift) as usize), len as int, !shift) == i,
{
}

/// How the hydrated root of a dialog is read.
#[derive(Clone, Copy, Debug, PartialEq, Eq, Structural)]
pub enum DialogRoot {
    /// The root is the `<dialog>`; its trigger is found by
    /// [`trigger_selector`] on its id.
    Dialog,
    /// The root is a `<dialog>` without an id: it cannot be wired.
    DialogWithoutId,
    /// The root is a wrapper holding the `[data-dialog-trigger]`, whose
    /// `aria-controls` names the dialog.
    Wrapper,
}

pub fn dialog_root(root_is_dialog: bool, root_id: &str) -> (r: DialogRoot)
    ensures
        r == (if !root_is_dialog {
            DialogRoot::Wrapper
        } else if root_id@.len() == 0 {
            DialogRoot::DialogWithoutId
        } else {
            DialogRoot::Dialog
        }),
{
    if !root_is_dialog {
        DialogRoot::Wrapper
    } else if root_id.unicode_len() == 0 {
        DialogRoot::DialogWithoutId
    } else {
        DialogRoot::Dialog
    }
}

/// What a keydown inside the open dialog does.
#[derive(Clone, Copy, Debug, PartialEq, Eq, Structural)]
pub enum DialogKey {
    /// Escape: the browser closes the dialog; mirror `data-state` and
    /// return focus to the trigger.
    Closed,
    /// Tab: prevent the default move and cycle focus.
    Trap,
    Nothing,
}

pub fn decide_key(key: &str) -> (r: DialogKey)
    ensures
        r == (if key@ == "Escape"@ {
            DialogKey::Closed
        } else if key@ == "Tab"@ {
            DialogKey::Trap
        } else {
            DialogKey::Nothing
        }),
{
    if str_eq(key, "Escape") {
        DialogKey::Closed
    } else if str_eq(key, "Tab") {
        DialogKey::Trap
    } else {
        DialogKey::Nothing
    }
}

/// Selector of the trigger of the dialog `id` when the dialog itself is the
/// hydrated root.
pub fn trigger_selector(id: &str) -> (r: String)
    ensures
        r@ == "[data-dialog-trigger=\""@ + id@ + "\"], [aria-controls=\""@ + id@ + "\"]"@,
{
    let mut s = String::from_str("[data-dialog-trigger=\"");
    s.append(id);
    s.append("\"], [aria-controls=\"");
    s.append(id);
    s.append("\"]");
    s
}

} // verus!
