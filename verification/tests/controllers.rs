use basecoat::controllers::sidebar::state_str;
use basecoat::controllers::dialog::{self, dialog_root, trap_focus, trigger_selector, DialogKey, DialogRoot};
use basecoat::controllers::dismiss::{escape_dismisses, floating_is_active, outside_dismisses};
use basecoat::controllers::dropdown::{self, activation_closes, request_close, CloseRequest};
use basecoat::controllers::hydrate::{
    hydrate_step, lookup_controller, version_mismatch, Controller, HydrateStep,
};
use basecoat::controllers::keyboard::Orientation;
use basecoat::controllers::popover::{self, content_id, is_details_tag};
use basecoat::controllers::select::{
    close, focus_initial, is_disabled, merge_min_width, open, plan_open, selection_flags, toggle,
    trigger_label, SelectItem, SelectState, Toggle,
};
use basecoat::controllers::sidebar::{
    aria_expanded, dismiss_collapses, initial_state, read_state, reconcile, storage_key,
    toggle_selector, toggle_state, Reconcile, SidebarState, STORAGE_PREFIX,
};
use basecoat::controllers::tabs::{
    activate_tab, initial_tab, on_tab_event, orientation_from_attr, tab_attrs, TabEvent, TabItem,
};
use basecoat::controllers::toast::{
    duration_attr, duration_from_attr, removals_needed, toast_attributes, toast_duration,
    toast_inner_html, ToastAction, ToastOptions, DEFAULT_DURATION_MS, MAX_VISIBLE,
};

fn s(v: &str) -> Option<String> {
    Some(v.to_string())
}

// --- select -----------------------------------------------------------------

fn opt(value: Option<&str>, text: &str) -> SelectItem {
    SelectItem {
        value: value.map(|v| v.to_string()),
        text: text.to_string(),
        disabled: false,
        aria_disabled: None,
        aria_selected: None,
    }
}

#[test]
fn select_min_width_replaces_earlier_value() {
    assert_eq!(
        merge_min_width("position: absolute; min-width: 10px;", 120),
        "position: absolute; min-width: 120px;"
    );
    assert_eq!(merge_min_width("", 80), "min-width: 80px;");
    assert_eq!(
        merge_min_width(" top:0 ;;MIN-WIDTH : 3px; left: 2px", -4),
        "top:0; left: 2px; min-width: -4px;"
    );
    assert_eq!(merge_min_width("color: red", 0), "color: red; min-width: 0px;");
}

#[test]
fn select_repeated_opens_keep_one_min_width() {
    let first = merge_min_width("color: red; min-width: 5px", 100);
    let second = merge_min_width(&first, 200);
    assert_eq!(second, "color: red; min-width: 200px;");
    assert_eq!(second, merge_min_width("color: red; min-width: 5px", 200));
}

#[test]
fn select_label_and_flags_follow_value() {
    let items = vec![opt(Some("a"), "Apple"), opt(None, "None"), opt(Some("b"), "Banana")];
    assert_eq!(trigger_label(&items, "b"), Some("Banana".to_string()));
    assert_eq!(trigger_label(&items, "zz"), None);
    assert_eq!(trigger_label(&items, ""), None);
    assert_eq!(selection_flags(&items, "a"), vec![true, false, false]);
    assert_eq!(selection_flags(&items, ""), vec![false, true, false]);
}

#[test]
fn select_initial_focus_prefers_selected_then_enabled() {
    let mut items = vec![opt(Some("a"), "A"), opt(Some("b"), "B"), opt(Some("c"), "C")];
    items[0].disabled = true;
    items[1].aria_disabled = s("true");
    assert!(is_disabled(&items[0]));
    assert!(is_disabled(&items[1]));
    assert_eq!(focus_initial(&items), Some(2));
    items[1].aria_selected = s("true");
    assert_eq!(focus_initial(&items), Some(1));
    let all_off = vec![SelectItem { disabled: true, ..opt(None, "x") }];
    assert_eq!(focus_initial(&all_off), None);
}

#[test]
fn select_toggle_open_close() {
    let mut st = SelectState { open: false };
    assert_eq!(toggle(&mut st), Toggle::Open);
    assert!(st.open);
    assert!(!open(&mut st));
    assert_eq!(toggle(&mut st), Toggle::Close);
    assert!(!close(&mut st));
    assert!(open(&mut st));
    assert!(close(&mut st));
    assert!(!st.open);
}

// --- tabs -------------------------------------------------------------------

fn tab(selected: Option<&str>, controls: &str) -> TabItem {
    TabItem { aria_selected: selected.map(|v| v.to_string()), aria_controls: s(controls) }
}

#[test]
fn tabs_activates_second_tab_on_click() {
    let tabs = vec![tab(None, "panel-1"), tab(None, "panel-2")];
    let panels = vec!["panel-1".to_string(), "panel-2".to_string()];
    let first = initial_tab(&tabs);
    assert_eq!(first, 0);
    let a = activate_tab(&tabs, &panels, first);
    assert_eq!(a.active, vec![true, false]);
    assert_eq!(a.hidden, vec![false, true]);
    let b = activate_tab(&tabs, &panels, 1);
    assert_eq!(b.active, vec![false, true]);
    assert_eq!(b.hidden, vec![true, false]);
}

#[test]
fn tabs_initial_tab_is_first_selected() {
    let tabs = vec![tab(s("false").as_deref(), "p1"), tab(Some("true"), "p2"), tab(Some("true"), "p3")];
    assert_eq!(initial_tab(&tabs), 1);
    assert_eq!(initial_tab(&[]), 0);
}

#[test]
fn tabs_panel_without_matching_tab_stays_hidden() {
    let tabs = vec![TabItem { aria_selected: None, aria_controls: None }];
    let panels = vec!["p".to_string()];
    let a = activate_tab(&tabs, &panels, 0);
    assert_eq!(a.hidden, vec![true]);
}

#[test]
fn tabs_attributes_and_orientation() {
    let on = tab_attrs(true);
    assert_eq!((on.aria_selected.as_str(), on.tabindex.as_str(), on.data_state.as_str()), ("true", "0", "active"));
    let off = tab_attrs(false);
    assert_eq!((off.aria_selected.as_str(), off.tabindex.as_str(), off.data_state.as_str()), ("false", "-1", "inactive"));
    assert_eq!(orientation_from_attr(&s("vertical")), Orientation::Vertical);
    assert_eq!(orientation_from_attr(&s("horizontal")), Orientation::Horizontal);
    assert_eq!(orientation_from_attr(&None), Orientation::Horizontal);
}

#[test]
fn tabs_focus_activates_only_on_change() {
    let mut active = 0usize;
    assert!(!on_tab_event(&mut active, TabEvent::Focus(0)));
    assert!(on_tab_event(&mut active, TabEvent::Focus(2)));
    assert_eq!(active, 2);
}

#[test]
fn tabs_click_then_focus_follows_last_event() {
    let mut active = 0usize;
    assert!(on_tab_event(&mut active, TabEvent::Click(1)));
    assert_eq!(active, 1);
    assert!(on_tab_event(&mut active, TabEvent::Click(1)));
    // focusing the tab that was active before the click activates it again
    assert!(on_tab_event(&mut active, TabEvent::Focus(0)));
    assert_eq!(active, 0);
}

// --- toast ------------------------------------------------------------------

#[test]
fn toast_duration_parses_or_defaults() {
    assert_eq!(duration_from_attr(&s("200")), 200);
    assert_eq!(duration_from_attr(&s("abc")), DEFAULT_DURATION_MS);
    assert_eq!(duration_from_attr(&s("")), DEFAULT_DURATION_MS);
    assert_eq!(duration_from_attr(&s("99999999999")), DEFAULT_DURATION_MS);
    assert_eq!(duration_from_attr(&None), 5000);
    assert_eq!(duration_from_attr(&Some(duration_attr(1234))), 1234);
    assert_eq!(duration_attr(0), "0");
}

#[test]
fn toast_queue_keeps_at_most_five() {
    assert_eq!(MAX_VISIBLE, 5);
    assert_eq!(removals_needed(0), 0);
    assert_eq!(removals_needed(4), 0);
    assert_eq!(removals_needed(5), 1);
    assert_eq!(removals_needed(8), 4);
}

#[test]
fn toast_inner_html_escapes_and_skips_empty_parts() {
    let opts = ToastOptions {
        title: s("Saved <ok>"),
        description: None,
        category: None,
        duration: None,
        action: None,
    };
    assert_eq!(
        toast_inner_html(&opts),
        "<div data-toast-title>Saved &lt;ok&gt;</div><button data-toast-close type=\"button\" aria-label=\"Close\">\u{d7}</button>"
    );
    assert_eq!(toast_duration(&opts), DEFAULT_DURATION_MS);
    let full = ToastOptions {
        title: None,
        description: s("a & b"),
        category: s("error"),
        duration: Some(200),
        action: Some(ToastAction { label: "Undo".to_string(), event_name: "undo".to_string() }),
    };
    assert_eq!(
        toast_inner_html(&full),
        "<div data-toast-title></div><div data-toast-description>a &amp; b</div><button data-toast-action type=\"button\">Undo</button><button data-toast-close type=\"button\" aria-label=\"Close\">\u{d7}</button>"
    );
    assert_eq!(toast_duration(&full), 200);
}

#[test]
fn toast_attributes_in_order() {
    let attrs = toast_attributes("success", 200);
    let pairs: Vec<(&str, &str)> =
        attrs.iter().map(|a| (a.name.as_str(), a.value.as_str())).collect();
    assert_eq!(
        pairs,
        vec![
            ("class", "toast"),
            ("data-toast", ""),
            ("role", "status"),
            ("aria-live", "polite"),
            ("data-state", "open"),
            ("data-category", "success"),
            ("data-duration", "200"),
        ]
    );
    assert_eq!(toast_attributes("", 5).len(), 6);
}

// --- sidebar ----------------------------------------------------------------

#[test]
fn sidebar_state_from_storage_then_attribute() {
    assert_eq!(storage_key("main"), "basecoat:sidebar:main");
    assert_eq!(STORAGE_PREFIX, "basecoat:sidebar:");
    assert_eq!(read_state(&s("collapsed")), Some(SidebarState::Collapsed));
    assert_eq!(read_state(&s("bogus")), None);
    assert_eq!(initial_state(&s("expanded"), &s("collapsed")), SidebarState::Expanded);
    assert_eq!(initial_state(&s("bogus"), &s("collapsed")), SidebarState::Collapsed);
    assert_eq!(initial_state(&None, &None), SidebarState::Expanded);
}

#[test]
fn sidebar_toggle_and_dismiss() {
    assert_eq!(toggle_state(&s("expanded")), SidebarState::Collapsed);
    assert_eq!(toggle_state(&s("collapsed")), SidebarState::Expanded);
    assert_eq!(toggle_state(&None), SidebarState::Expanded);
    let once = toggle_state(&s("expanded"));
    let name = basecoat::controllers::sidebar::state_str(once).to_string();
    assert_eq!(toggle_state(&Some(name)), SidebarState::Expanded);
    assert_eq!(aria_expanded(SidebarState::Expanded), "true");
    assert_eq!(aria_expanded(SidebarState::Collapsed), "false");
    assert!(dismiss_collapses(&s("expanded")));
    assert!(!dismiss_collapses(&s("collapsed")));
    assert_eq!(reconcile(true, true), Reconcile::Detach);
    assert_eq!(reconcile(false, true), Reconcile::Keep);
    assert_eq!(reconcile(false, false), Reconcile::Attach);
    assert_eq!(
        toggle_selector("nav"),
        "[data-sidebar-toggle=\"nav\"], button[aria-controls=\"nav\"]"
    );
}

// --- dialog -----------------------------------------------------------------

#[test]
fn dialog_focus_trap_wraps() {
    assert_eq!(trap_focus(Some(2), 3, false), Some(0));
    assert_eq!(trap_focus(Some(0), 3, true), Some(2));
    assert_eq!(trap_focus(Some(1), 3, false), Some(2));
    assert_eq!(trap_focus(None, 3, true), Some(0));
    assert_eq!(trap_focus(None, 0, false), None);
    let fwd = trap_focus(Some(1), 4, false).unwrap();
    assert_eq!(trap_focus(Some(fwd), 4, true), Some(1));
}

#[test]
fn dialog_keys_and_selector() {
    assert_eq!(dialog::decide_key("Escape"), DialogKey::Closed);
    assert_eq!(dialog::decide_key("Tab"), DialogKey::Trap);
    assert_eq!(dialog::decide_key("Enter"), DialogKey::Nothing);
    assert_eq!(dialog::state_str(true), "open");
    assert_eq!(dialog::state_str(false), "closed");
    assert_eq!(
        trigger_selector("d1"),
        "[data-dialog-trigger=\"d1\"], [aria-controls=\"d1\"]"
    );
}

// --- dismiss, dropdown, popover ----------------------------------------------

#[test]
fn dismiss_rules() {
    assert!(outside_dismisses(false, false));
    assert!(!outside_dismisses(true, false));
    assert!(!outside_dismisses(false, true));
    assert!(floating_is_active(&s("open"), false));
    assert!(floating_is_active(&None, true));
    assert!(!floating_is_active(&s("closed"), false));
    assert!(escape_dismisses("Escape", true));
    assert!(!escape_dismisses("Escape", false));
    assert!(!escape_dismisses("Esc", true));
}

#[test]
fn dropdown_rules() {
    assert_eq!(dropdown::placement_or_default(None), "bottom-start");
    assert_eq!(dropdown::placement_or_default(s("top")), "top");
    assert!(activation_closes(&s("menuitem"), &None));
    assert!(!activation_closes(&s("menuitem"), &s("true")));
    assert!(!activation_closes(&s("separator"), &None));
    assert_eq!(request_close(true), CloseRequest::RemoveOpen);
    assert_eq!(request_close(false), CloseRequest::Flush);
    assert_eq!(dropdown::state_attrs(true), ("true", "open"));
    assert_eq!(dropdown::state_attrs(false), ("false", "closed"));
}

#[test]
fn popover_rules() {
    assert!(is_details_tag("DETAILS"));
    assert!(is_details_tag("details"));
    assert!(!is_details_tag("div"));
    assert_eq!(content_id("pop"), "pop-content");
    assert_eq!(popover::placement_or_default(None), "bottom");
    assert_eq!(popover::placement_or_default(s("left")), "left");
    assert_eq!(popover::state_attrs(true), ("open", "true"));
    assert_eq!(popover::state_attrs(false), ("closed", "false"));
}

// --- hydrate ----------------------------------------------------------------

#[test]
fn hydrate_dispatch() {
    assert_eq!(lookup_controller("dialog"), Some(Controller::Dialog));
    assert_eq!(lookup_controller("tabs"), Some(Controller::Tabs));
    assert_eq!(lookup_controller("toast"), Some(Controller::Toast));
    assert_eq!(lookup_controller("select"), Some(Controller::Select));
    assert_eq!(lookup_controller("dropdown"), Some(Controller::Dropdown));
    assert_eq!(lookup_controller("popover"), Some(Controller::Popover));
    assert_eq!(lookup_controller("sidebar"), Some(Controller::Sidebar));
    assert_eq!(lookup_controller("combobox"), Some(Controller::Combobox));
    assert_eq!(lookup_controller("tooltip"), None);
    assert!(!version_mismatch(&s("0.1")));
    assert!(version_mismatch(&s("0.2")));
    assert!(version_mismatch(&None));
    assert_eq!(hydrate_step(&s("true"), &s("dialog")), HydrateStep::Skip);
    assert_eq!(hydrate_step(&None, &s("tabs")), HydrateStep::Attach(Controller::Tabs));
    assert_eq!(hydrate_step(&s("false"), &None), HydrateStep::NoName);
    assert_eq!(hydrate_step(&None, &s("carousel")), HydrateStep::Unknown);
    assert_eq!(hydrate_step(&None, &s("dropdown")), HydrateStep::Attach(Controller::Dropdown));
}

#[test]
fn sidebar_state_written_is_read_back() {
    for st in [SidebarState::Expanded, SidebarState::Collapsed] {
        let stored = Some(state_str(st).to_string());
        assert_eq!(read_state(&stored), Some(st));
        assert_eq!(initial_state(&stored, &s("expanded")), st);
    }
}

#[test]
fn select_opening_plans_width_and_focus() {
    let mut items = vec![opt(Some("a"), "A"), opt(Some("b"), "B")];
    items[0].disabled = true;
    let mut st = SelectState { open: false };
    let plan = plan_open(&mut st, 120, &s("position: absolute; min-width: 10px;"), &items).unwrap();
    assert!(st.open);
    assert_eq!(plan.style.as_deref(), Some("position: absolute; min-width: 120px;"));
    assert_eq!(plan.focus, Some(1));
    // opening again while open changes nothing
    assert!(plan_open(&mut st, 300, &None, &items).is_none());
    assert!(st.open);

    let mut closed = SelectState { open: false };
    let plan = plan_open(&mut closed, 0, &None, &items).unwrap();
    assert_eq!(plan.style, None);
    let plan2 = plan_open(&mut SelectState { open: false }, 50, &None, &items).unwrap();
    assert_eq!(plan2.style.as_deref(), Some("min-width: 50px;"));
}

#[test]
fn dialog_root_shapes() {
    assert_eq!(dialog_root(true, "d1"), DialogRoot::Dialog);
    assert_eq!(dialog_root(true, ""), DialogRoot::DialogWithoutId);
    assert_eq!(dialog_root(false, ""), DialogRoot::Wrapper);
}
