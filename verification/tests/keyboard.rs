use basecoat::controllers::keyboard::{
    current_index, direction_for_key, find_by_prefix, find_next, first_enabled, handle_keydown,
    initial_index, is_enabled, last_enabled, step_backward, step_forward, sync_tabindex, Direction,
    Orientation, RovingItem, RovingOpts, RovingState,
};

fn item(text: &str) -> RovingItem {
    RovingItem {
        disabled: false,
        aria_disabled: None,
        aria_selected: None,
        tabindex: None,
        text: text.to_string(),
    }
}

fn disabled(text: &str) -> RovingItem {
    RovingItem { disabled: true, ..item(text) }
}

fn aria_disabled(text: &str) -> RovingItem {
    RovingItem { aria_disabled: Some("true".to_string()), ..item(text) }
}

#[test]
fn enabled_unless_disabled_or_aria_disabled() {
    assert!(is_enabled(&item("a")));
    assert!(!is_enabled(&disabled("a")));
    assert!(!is_enabled(&aria_disabled("a")));
    let mut other = item("a");
    other.aria_disabled = Some("false".to_string());
    assert!(is_enabled(&other));
}

#[test]
fn step_forward_skips_disabled_and_wraps() {
    let items = vec![item("a"), disabled("b"), item("c"), aria_disabled("d")];
    assert_eq!(step_forward(&items, 0, true), Some(2));
    assert_eq!(step_forward(&items, 2, true), Some(0));
    assert_eq!(step_forward(&items, 2, false), None);
}

#[test]
fn step_backward_skips_disabled_and_wraps() {
    let items = vec![item("a"), disabled("b"), item("c"), aria_disabled("d")];
    assert_eq!(step_backward(&items, 2, true), Some(0));
    assert_eq!(step_backward(&items, 0, true), Some(2));
    assert_eq!(step_backward(&items, 0, false), None);
}

#[test]
fn stepping_when_all_disabled_finds_nothing() {
    let items = vec![disabled("a"), disabled("b")];
    assert_eq!(step_forward(&items, 0, true), None);
    assert_eq!(step_backward(&items, 1, true), None);
    assert_eq!(first_enabled(&items), None);
    assert_eq!(last_enabled(&items), None);
}

#[test]
fn back_then_forward_returns_to_start() {
    let items = vec![item("a"), disabled("b"), item("c"), item("d")];
    let back = step_backward(&items, 2, true).unwrap();
    assert_eq!(back, 0);
    assert_eq!(step_forward(&items, back, true), Some(2));
}

#[test]
fn home_and_end_go_to_the_enabled_ends() {
    let items = vec![disabled("a"), item("b"), item("c"), disabled("d")];
    assert_eq!(first_enabled(&items), Some(1));
    assert_eq!(last_enabled(&items), Some(2));
    assert_eq!(find_next(&items, 2, Direction::First, true), Some(1));
    assert_eq!(find_next(&items, 1, Direction::Last, true), Some(2));
    assert_eq!(find_next(&items, 1, Direction::Next, true), Some(2));
    assert_eq!(find_next(&items, 1, Direction::Prev, false), None);
}

#[test]
fn prefix_search_starts_after_current_and_wraps() {
    let items = vec![item("  Apple "), item("Banana"), disabled("Avocado"), item("apricot")];
    assert_eq!(find_by_prefix(&items, 0, "ap"), Some(3));
    assert_eq!(find_by_prefix(&items, 3, "ap"), Some(0));
    assert_eq!(find_by_prefix(&items, 0, "b"), Some(1));
    assert_eq!(find_by_prefix(&items, 0, "av"), None);
    assert_eq!(find_by_prefix(&items, 0, ""), None);
    assert_eq!(find_by_prefix(&items, 0, "a"), Some(3));
}

#[test]
fn initial_index_prefers_selected_then_enabled() {
    let mut selected = item("c");
    selected.aria_selected = Some("true".to_string());
    assert_eq!(initial_index(&[disabled("a"), item("b"), selected], None), 2);
    assert_eq!(initial_index(&[disabled("a"), item("b"), item("c")], None), 1);
    assert_eq!(initial_index(&[disabled("a"), disabled("b")], None), 0);
    assert_eq!(initial_index(&[disabled("a"), item("b")], Some(7)), 1);
}

#[test]
fn initial_index_keeps_the_focused_item() {
    let mut selected = item("a");
    selected.aria_selected = Some("true".to_string());
    assert_eq!(initial_index(&[item("a"), item("b"), item("c")], Some(2)), 2);
    assert_eq!(initial_index(&[selected, item("b"), disabled("c")], Some(2)), 2);
}

#[test]
fn current_index_prefers_focus_then_tab_stop() {
    let mut stop = item("b");
    stop.tabindex = Some("0".to_string());
    let items = vec![item("a"), stop, item("c")];
    assert_eq!(current_index(&items, Some(2)), 2);
    assert_eq!(current_index(&items, None), 1);
    assert_eq!(current_index(&[item("a"), item("b")], None), 0);
}

#[test]
fn tabindex_sync_leaves_one_tab_stop() {
    let t = sync_tabindex(4, 2);
    assert_eq!(t, vec!["-1", "-1", "0", "-1"]);
    assert!(sync_tabindex(0, 0).is_empty());
}

#[test]
fn arrow_keys_follow_orientation() {
    assert_eq!(direction_for_key("ArrowRight", Orientation::Horizontal), Some(Direction::Next));
    assert_eq!(direction_for_key("ArrowDown", Orientation::Horizontal), None);
    assert_eq!(direction_for_key("ArrowUp", Orientation::Vertical), Some(Direction::Prev));
    assert_eq!(direction_for_key("ArrowLeft", Orientation::Vertical), None);
    assert_eq!(direction_for_key("ArrowLeft", Orientation::Both), Some(Direction::Prev));
    assert_eq!(direction_for_key("Home", Orientation::Horizontal), Some(Direction::First));
    assert_eq!(direction_for_key("End", Orientation::Vertical), Some(Direction::Last));
    assert_eq!(direction_for_key("x", Orientation::Both), None);
}

#[test]
fn default_options_wrap_in_both_directions() {
    let opts = RovingOpts::default();
    assert_eq!(opts.orientation, Orientation::Both);
    assert!(opts.wrap);
    assert!(!opts.type_ahead);
}

#[test]
fn keydown_moves_focus_and_types_ahead() {
    let mut state = RovingState {
        items: vec![item("One"), item("Two"), item("Three")],
        opts: RovingOpts { orientation: Orientation::Horizontal, wrap: true, type_ahead: true },
        type_buffer: String::new(),
    };
    let out = handle_keydown(&mut state, "ArrowRight", Some(0), false);
    assert!(out.prevent_default);
    assert_eq!(out.focus, Some(1));
    assert!(!out.typed);

    let out = handle_keydown(&mut state, "ArrowLeft", Some(0), false);
    assert_eq!(out.focus, Some(2));

    let out = handle_keydown(&mut state, "T", Some(0), true);
    assert!(out.typed);
    assert!(out.prevent_default);
    assert_eq!(out.focus, Some(1));
    assert_eq!(state.type_buffer, "t");

    let out = handle_keydown(&mut state, "h", Some(1), false);
    assert_eq!(state.type_buffer, "th");
    assert_eq!(out.focus, Some(2));

    let out = handle_keydown(&mut state, "z", Some(2), true);
    assert_eq!(state.type_buffer, "z");
    assert!(out.typed);
    assert!(!out.prevent_default);
    assert_eq!(out.focus, None);
}

#[test]
fn keydown_on_empty_collection_does_nothing() {
    let mut state = RovingState {
        items: vec![],
        opts: RovingOpts::default(),
        type_buffer: String::from("ab"),
    };
    let out = handle_keydown(&mut state, "ArrowDown", None, false);
    assert!(!out.prevent_default);
    assert_eq!(out.focus, None);
    assert_eq!(state.type_buffer, "ab");
}

#[test]
fn keydown_without_type_ahead_ignores_letters() {
    let mut state = RovingState {
        items: vec![item("One"), item("Two")],
        opts: RovingOpts::default(),
        type_buffer: String::new(),
    };
    let out = handle_keydown(&mut state, "t", Some(0), false);
    assert!(!out.prevent_default);
    assert_eq!(out.focus, None);
    assert!(!out.typed);
    assert_eq!(state.type_buffer, "");
}
