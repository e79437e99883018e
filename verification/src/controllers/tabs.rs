//! Tabs: a tablist of tabs and their tab panels. Activating a tab selects
//! it, puts it alone in the tab sequence and shows only the panel it
//! controls.
use vstd::prelude::*;

use crate::controllers::keyboard::Orientation;
use crate::text::{attr_equals, attr_is, str_eq};

verus! {

/// What the controller reads of one tab.
pub struct TabItem {
    /// Value of `aria-selected`.
    pub aria_selected: Option<String>,
    /// Value of `aria-controls` (the id of the panel it shows).
    pub aria_controls: Option<String>,
}

/// The tab active after hydration: the first `aria-selected="true"` tab,
/// else the first tab.
pub open spec fn is_initial_tab(tabs: Seq<TabItem>, r: usize) -> bool {
    if exists|i: int| 0 <= i < tabs.len() && attr_is(#[trigger] tabs[i].aria_selected, "true"@) {
        r < tabs.len() && attr_is(tabs[r as int].aria_selected, "true"@) && forall|k: int|
            0 <= k < r ==> !attr_is(#[trigger] tabs[k].aria_selected, "true"@)
    } else {
        r == 0
    }
}

pub fn initial_tab(tabs: &[TabItem]) -> (r: usize)
    ensures
        is_initial_tab(tabs@, r),
        tabs@.len() > 0 ==> r < tabs@.len(),
{
    let mut i: usize = 0;
    while i < tabs.len()
        invariant
            i <= tabs@.len(),
            forall|k: int| 0 <= k < i ==> !attr_is(#[trigger] tabs@[k].aria_selected, "true"@),
        decreases tabs.len() - i,
    {
        if attr_equals(&tabs[i].aria_selected, "true") {
            return i;
        }
        i = i + 1;
    }
    0
}

/// Arrow keys follow `aria-orientation`: vertical when it is `"vertical"`,
/// horizontal otherwise.
pub fn orientation_from_attr(aria_orientation: &Option<String>) -> (r: Orientation)
    ensures
        r == (if attr_is(*aria_orientation, "vertical"@) {
            Orientation::Vertical
        } else {
            Orientation::Horizontal
        }),
{
    if attr_equals(aria_orientation, "vertical") {
        Orientation::Vertical
    } else {
        Orientation::Horizontal
    }
}

/// The attribute values of one tab.
pub struct TabAttrs {
    pub aria_selected: String,
    pub tabindex: String,
    pub data_state: String,
}

/// Attributes of a tab that is (`active`) or is not the active one.
pub open spec fn tab_attrs_ok(a: TabAttrs, active: bool) -> bool {
    if active {
        a.aria_selected@ == "true"@ && a.tabindex@ == "0"@ && a.data_state@ == "active"@
    } else {
        a.aria_selected@ == "false"@ && a.tabindex@ == "-1"@ && a.data_state@ == "inactive"@
    }
}

pub fn tab_attrs(active: bool) -> (r: TabAttrs)
    ensures
        tab_attrs_ok(r, active),
{
    if active {
        TabAttrs {
            aria_selected: String::from_str("true"),
            tabindex: String::from_str("0"),
            data_state: String::from_str("active"),
        }
    } else {
        TabAttrs {
            aria_selected: String::from_str("false"),
            tabindex: String::from_str("-1"),
            data_state: String::from_str("inactive"),
        }
    }
}

/// The visibility of every panel once tab `idx` is active.
pub struct Activation {
    /// `active[i]`: tab `i` is the active tab.
    pub active: Vec<bool>,
    /// `hidden[p]`: panel `p` gets the `hidden` attribute.
    pub hidden: Vec<bool>,
}

/// A panel is shown exactly when its id is the `aria-controls` of the
/// active tab.
pub open spec fn panel_shown(controls: Option<String>, panel_id: Seq<char>) -> bool {
    controls is Some && controls->0@ == panel_id
}

/// Activates tab `idx`: it alone is active, and of the panels only the one
/// it controls is shown.
pub fn activate_tab(tabs: &[TabItem], panel_ids: &[String], idx: usize) -> (r: Activation)
    requires
        idx < tabs@.len(),
    ensures
        r.active@.len() == tabs@.len(),
        forall|i: int| 0 <= i < tabs@.len() ==> #[trigger] r.active@[i] == (i == idx),
        r.hidden@.len() == panel_ids@.len(),
        forall|p: int|
            0 <= p < panel_ids@.len() ==> #[trigger] r.hidden@[p] == !panel_shown(
                tabs@[idx as int].aria_controls,
                panel_ids@[p]@,
            ),
{
    let mut active: Vec<bool> = Vec::new();
    let mut i: usize = 0;
    while i < tabs.len()
        invariant
            i <= tabs@.len(),
            active@.len() == i,
            forall|k: int| 0 <= k < i ==> #[trigger] active@[k] == (k == idx),
        decreases tabs.len() - i,
    {
        active.push(i == idx);
        i = i + 1;
    }
    let controls = &tabs[idx].aria_controls;
    let mut hidden: Vec<bool> = Vec::new();
    let mut p: usize = 0;
    while p < panel_ids.len()
        invariant
            p <= panel_ids@.len(),
            *controls == tabs@[idx as int].aria_controls,
            hidden@.len() == p,
            forall|k: int|
                0 <= k < p ==> #[trigger] hidden@[k] == !panel_shown(*controls, panel_ids@[k]@),
        decreases panel_ids.len() - p,
    {
        let shown = match controls {
            Some(c) => str_eq(panel_ids[p].as_str(), c.as_str()),
            None => false,
        };
        hidden.push(!shown);
        p = p + 1;
    }
    Activation { active, hidden }
}

/// A user event on tab `i`: a click, or the tab gaining focus (for
/// instance from the arrow keys of the roving tabindex).
#[derive(Clone, Copy, Debug, PartialEq, Eq, Structural)]
pub enum TabEvent {
    Click(usize),
    Focus(usize),
}

/// The tab an event concerns.
pub open spec fn event_tab(e: TabEvent) -> usize {
    match e {
        TabEvent::Click(i) => i,
        TabEvent::Focus(i) => i,
    }
}

/// The active tab after event `e`: the tab it concerns.
pub open spec fn tab_step(active: usize, e: TabEvent) -> usize {
    event_tab(e)
}

/// Whether `e` re-renders the tabs: a click always does, a focus only when
/// it moves the active tab.
pub open spec fn tab_event_activates(active: usize, e: TabEvent) -> bool {
    match e {
        TabEvent::Click(_) => true,
        TabEvent::Focus(i) => active != i,
    }
}

/// Tracks the active tab through an event. Returns whether to activate the
/// new active tab.
pub fn on_tab_event(active_idx: &mut usize, event: TabEvent) -> (activate: bool)
    ensures
        *final(active_idx) == tab_step(*old(active_idx), event),
        activate == tab_event_activates(*old(active_idx), event),
{
    match event {
        TabEvent::Click(i) => {
            *active_idx = i;
            true
        },
        TabEvent::Focus(i) => {
            if *active_idx == i {
                false
            } else {
                *active_idx = i;
                true
            }
        },
    }
}

/// The active tab after `events`, starting from `initial`.
pub open spec fn active_after(initial: usize, events: Seq<TabEvent>) -> usize
    decreases events.len(),
{
    if events.len() == 0 {
        initial
    } else {
        tab_step(active_after(initial, events.drop_last()), events.last())
    }
}

} // verus!

verus! {

/// After any sequence of clicks on and focus of tabs, the active tab is the
/// one the last event concerned (the initial tab when there was none); so
/// with `n` tabs it stays one of them, and [`activate_tab`] on it leaves it
/// the only active tab and shows only its panel.
pub proof fn lemma_active_tab_follows_events(initial: usize, events: Seq<TabEvent>, n: usize)
    requires
        initial < n,
        forall|k: int| 0 <= k < events.len() ==> event_tab(#[trigger] events[k]) < n,
    ensures
        active_after(initial, events) == (if events.len() == 0 {
            initial
        } else {
            event_tab(events.last())
        }),
        active_after(initial, events) < n,
{
    if events.len() > 0 {
        assert(event_tab(events[events.len() - 1]) < n);
    }
}

} // verus!
