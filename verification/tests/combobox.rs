use basecoat::controllers::combobox::{
    active_descendant, close_listbox, compute_next, decide_key, filter_options,
    first_visible_index, move_active, new_state, open_listbox, option_entry, select_option,
    visible_indices, ComboAction, ComboKey, ComboboxState, Movement, PAGE_JUMP,
};

fn fruits() -> ComboboxState {
    new_state(vec![
        option_entry("o-apple".to_string(), "  Apple "),
        option_entry("o-banana".to_string(), "Banana"),
        option_entry("o-cherry".to_string(), "Cherry"),
        option_entry("o-grape".to_string(), "Grape"),
    ])
}

#[test]
fn option_entries_are_trimmed_and_lower_cased() {
    let e = option_entry("x".to_string(), "  ÉCLAIR Tart\n");
    assert_eq!(e.id, "x");
    assert_eq!(e.label_lower, "éclair tart");
    assert!(e.visible);
}

#[test]
fn new_state_is_closed_without_highlight() {
    let s = fruits();
    assert!(!s.open);
    assert_eq!(s.active, None);
    assert_eq!(s.options.len(), 4);
}

#[test]
fn next_and_prev_wrap_around() {
    assert_eq!(compute_next(Some(3), 4, Movement::Next(1)), 0);
    assert_eq!(compute_next(None, 4, Movement::Next(1)), 0);
    assert_eq!(compute_next(Some(0), 4, Movement::Prev(1)), 3);
    assert_eq!(compute_next(None, 4, Movement::Prev(1)), 3);
    assert_eq!(compute_next(Some(1), 4, Movement::Prev(PAGE_JUMP)), 0);
    assert_eq!(compute_next(Some(1), 4, Movement::Next(PAGE_JUMP)), 2);
    assert_eq!(compute_next(Some(2), 4, Movement::First), 0);
    assert_eq!(compute_next(Some(0), 4, Movement::Last), 3);
}

#[test]
fn moving_forward_then_back_returns_to_start() {
    for p in 0..7usize {
        for step in [1usize, 2, 5, 9] {
            let q = compute_next(Some(p), 7, Movement::Next(step));
            assert_eq!(compute_next(Some(q), 7, Movement::Prev(step)), p);
        }
    }
}

#[test]
fn filtering_hides_non_matching_and_highlights_first_visible() {
    let mut s = fruits();
    filter_options(&mut s, "  AP ");
    let visible: Vec<bool> = s.options.iter().map(|o| o.visible).collect();
    assert_eq!(visible, vec![true, false, false, true]);
    assert_eq!(s.active, Some(0));
    assert_eq!(visible_indices(&s.options), vec![0, 3]);

    filter_options(&mut s, "zz");
    assert_eq!(s.active, None);
    assert_eq!(first_visible_index(&s.options), None);

    filter_options(&mut s, "   ");
    assert!(s.options.iter().all(|o| o.visible));
    assert_eq!(s.active, Some(0));
}

#[test]
fn highlight_moves_among_visible_options_only() {
    let mut s = fruits();
    filter_options(&mut s, "e");
    // apple, cherry, grape are visible
    assert_eq!(visible_indices(&s.options), vec![0, 2, 3]);
    assert_eq!(s.active, Some(0));
    move_active(&mut s, Movement::Next(1));
    assert_eq!(s.active, Some(2));
    move_active(&mut s, Movement::Next(1));
    assert_eq!(s.active, Some(3));
    move_active(&mut s, Movement::Next(1));
    assert_eq!(s.active, Some(0));
    move_active(&mut s, Movement::Prev(1));
    assert_eq!(s.active, Some(3));
    move_active(&mut s, Movement::First);
    assert_eq!(s.active, Some(0));
    assert_eq!(active_descendant(&s), Some("o-apple".to_string()));
}

#[test]
fn moving_with_nothing_visible_clears_highlight() {
    let mut s = fruits();
    filter_options(&mut s, "zz");
    move_active(&mut s, Movement::Next(1));
    assert_eq!(s.active, None);
    assert_eq!(active_descendant(&s), None);
}

#[test]
fn open_and_close_report_changes() {
    let mut s = fruits();
    assert!(open_listbox(&mut s));
    assert!(s.open);
    assert_eq!(s.active, Some(0));
    assert!(!open_listbox(&mut s));
    assert!(close_listbox(&mut s));
    assert!(!s.open);
    assert!(!close_listbox(&mut s));
    assert_eq!(s.active, Some(0));
}

#[test]
fn keys_decide_by_open_state() {
    let mut s = fruits();
    assert_eq!(
        decide_key(&s, "ArrowDown"),
        ComboKey { prevent_default: true, action: ComboAction::Open }
    );
    assert_eq!(
        decide_key(&s, "PageDown"),
        ComboKey { prevent_default: false, action: ComboAction::Nothing }
    );
    assert_eq!(
        decide_key(&s, "Escape"),
        ComboKey { prevent_default: false, action: ComboAction::Nothing }
    );
    assert_eq!(
        decide_key(&s, "Enter"),
        ComboKey { prevent_default: false, action: ComboAction::Nothing }
    );
    open_listbox(&mut s);
    assert_eq!(
        decide_key(&s, "ArrowUp"),
        ComboKey { prevent_default: true, action: ComboAction::Move(Movement::Prev(1)) }
    );
    assert_eq!(
        decide_key(&s, "PageDown"),
        ComboKey { prevent_default: true, action: ComboAction::Move(Movement::Next(PAGE_JUMP)) }
    );
    assert_eq!(
        decide_key(&s, "End"),
        ComboKey { prevent_default: true, action: ComboAction::Move(Movement::Last) }
    );
    assert_eq!(
        decide_key(&s, "Enter"),
        ComboKey { prevent_default: true, action: ComboAction::Select(0) }
    );
    assert_eq!(
        decide_key(&s, "Escape"),
        ComboKey { prevent_default: true, action: ComboAction::Close }
    );
    assert_eq!(
        decide_key(&s, "a"),
        ComboKey { prevent_default: false, action: ComboAction::Nothing }
    );
}

#[test]
fn selecting_fills_value_refilters_and_closes() {
    let mut s = fruits();
    open_listbox(&mut s);
    let v = select_option(&mut s, 2, None, "Cherry".to_string());
    assert_eq!(v, Some("Cherry".to_string()));
    assert!(!s.open);
    let visible: Vec<bool> = s.options.iter().map(|o| o.visible).collect();
    assert_eq!(visible, vec![false, false, true, false]);
    assert_eq!(s.active, Some(2));

    let v = select_option(&mut s, 1, Some("ban".to_string()), "Banana".to_string());
    assert_eq!(v, Some("ban".to_string()));
    assert_eq!(s.active, Some(1));
}

#[test]
fn selecting_a_missing_option_changes_nothing() {
    let mut s = fruits();
    open_listbox(&mut s);
    assert_eq!(select_option(&mut s, 9, None, "x".to_string()), None);
    assert!(s.open);
    assert_eq!(s.active, Some(0));
    assert!(s.options.iter().all(|o| o.visible));
}
