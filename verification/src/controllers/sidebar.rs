//! Sidebar: an `<aside>` toggled between expanded and collapsed by a
//! sibling button, with the state kept in local storage under
//! `basecoat:sidebar:{id}`.
use vstd::prelude::*;

use crate::text::{attr_equals, attr_is};

verus! {

/// Prefix of the local-storage key of a sidebar.
pub const STORAGE_PREFIX: &'static str = "basecoat:sidebar:";

/// The two states of a sidebar.
#[derive(Clone, Copy, Debug, PartialEq, Eq, Structural)]
pub enum SidebarState {
    Expanded,
    Collapsed,
}

/// The `data-state` value of a state.
pub open spec fn state_name(s: SidebarState) -> Seq<char> {
    match s {
        SidebarState::Expanded => "expanded"@,
        SidebarState::Collapsed => "collapsed"@,
    }
}

pub fn state_str(s: SidebarState) -> (r: &'static str)
    ensures
        r@ == state_name(s),
{
    match s {
        SidebarState::Expanded => "expanded",
        SidebarState::Collapsed => "collapsed",
    }
}

/// The toggle's `aria-expanded`: `"true"` exactly when expanded.
pub fn aria_expanded(s: SidebarState) -> (r: &'static str)
    ensures
        r@ == (if s == SidebarState::Expanded {
            "true"@
        } else {
            "false"@
        }),
{
    match s {
        SidebarState::Expanded => "true",
        SidebarState::Collapsed => "false",
    }
}

/// The local-storage key of the sidebar with `id`.
pub fn storage_key(id: &str) -> (r: String)
    ensures
        r@ == STORAGE_PREFIX@ + id@,
{
    let mut s = String::from_str(STORAGE_PREFIX);
    s.append(id);
    s
}

/// A stored value is only taken when it names a state.
pub open spec fn stored_state(stored: Option<String>) -> Option<SidebarState> {
    if attr_is(stored, "expanded"@) {
        Some(SidebarState::Expanded)
    } else if attr_is(stored, "collapsed"@) {
        Some(SidebarState::Collapsed)
    } else {
        None
    }
}

pub fn read_state(stored: &Option<String>) -> (r: Option<SidebarState>)
    ensures
        r == stored_state(*stored),
{
    if attr_equals(stored, "expanded") {
        Some(SidebarState::Expanded)
    } else if attr_equals(stored, "collapsed") {
        Some(SidebarState::Collapsed)
    } else {
        None
    }
}

/// The state on hydration: the stored one when valid, else collapsed when
/// the server rendered `data-state="collapsed"`, else expanded.
pub fn initial_state(stored: &Option<String>, data_state: &Option<String>) -> (r: SidebarState)
    ensures
        r == match stored_state(*stored) {
            Some(s) => s,
            None => if attr_is(*data_state, "collapsed"@) {
                SidebarState::Collapsed
            } else {
                SidebarState::Expanded
            },
        },
{
    match read_state(stored) {
        Some(s) => s,
        None => if attr_equals(data_state, "collapsed") {
            SidebarState::Collapsed
        } else {
            SidebarState::Expanded
        },
    }
}

/// The state after a toggle click, from the current `data-state`: an
/// expanded sidebar collapses, anything else expands.
pub open spec fn toggled(data_state: Option<String>) -> SidebarState {
    if attr_is(data_state, "expanded"@) {
        SidebarState::Collapsed
    } else {
        SidebarState::Expanded
    }
}

pub fn toggle_state(data_state: &Option<String>) -> (r: SidebarState)
    ensures
        r == toggled(*data_state),
{
    if attr_equals(data_state, "expanded") {
        SidebarState::Collapsed
    } else {
        SidebarState::Expanded
    }
}

/// Two toggles bring a sidebar back to the state it was in.
pub proof fn lemma_toggle_twice(s: SidebarState, a: String, b: String)
    requires
        a@ == state_name(s),
        b@ == state_name(toggled(Some(a))),
    ensures
        toggled(Some(b)) == s,
{
    reveal_strlit("expanded");
    reveal_strlit("collapsed");
    assert("expanded"@.len() != "collapsed"@.len());
}

/// An outside click or focus-out in overlay mode collapses the sidebar
/// only when it is expanded.
pub fn dismiss_collapses(data_state: &Option<String>) -> (r: bool)
    ensures
        r == attr_is(*data_state, "expanded"@),
{
    attr_equals(data_state, "expanded")
}

/// What happens to the overlay dismiss listener when the viewport crosses
/// the breakpoint.
#[derive(Clone, Copy, Debug, PartialEq, Eq, Structural)]
pub enum Reconcile {
    /// Drop the listener (desktop: in-flow column).
    Detach,
    /// Attach a listener (mobile: overlay drawer).
    Attach,
    /// Keep the listener that is already attached.
    Keep,
}

pub fn reconcile(is_desktop: bool, attached: bool) -> (r: Reconcile)
    ensures
        is_desktop ==> r == Reconcile::Detach,
        !is_desktop && attached ==> r == Reconcile::Keep,
        !is_desktop && !attached ==> r == Reconcile::Attach,
{
    if is_desktop {
        Reconcile::Detach
    } else if attached {
        Reconcile::Keep
    } else {
        Reconcile::Attach
    }
}

/// Selector of the toggle button of the sidebar `id`.
pub fn toggle_selector(id: &str) -> (r: String)
    ensures
        r@ == "[data-sidebar-toggle=\""@ + id@ + "\"], button[aria-controls=\""@ + id@ + "\"]"@,
{
    let mut s = String::from_str("[data-sidebar-toggle=\"");
    s.append(id);
    s.append("\"], button[aria-controls=\"");
    s.append(id);
    s.append("\"]");
    s
}

} // verus!

verus! {

/// A state written to storage (by its `data-state` name) is read back as
/// the same state.
pub proof fn lemma_storage_round_trip(s: SidebarState, stored: String)
    requires
        stored@ == state_name(s),
    ensures
        stored_state(Some(stored)) == Some(s),
{
    reveal_strlit("expanded");
    reveal_strlit("collapsed");
    assert("expanded"@.len() != "collapsed"@.len());
}

} // verus!
