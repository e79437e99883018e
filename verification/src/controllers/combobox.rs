//! Combobox: an input with a listbox of options, filtered by what is typed,
//! with the highlighted option announced through `aria-activedescendant`
//! (focus stays on the input).
use vstd::prelude::*;

use crate::text::{
    has_substring, to_lowercase, trim, trim_str, unicode_lower, contains, str_eq,
};

verus! {

/// Options moved over by PageUp / PageDown.
pub const PAGE_JUMP: usize = 5;

/// What the controller keeps of one option element.
pub struct OptionEntry {
    /// The element's `id` (target of `aria-activedescendant`).
    pub id: String,
    /// Trimmed, lower-cased text of the option, matched against the query.
    pub label_lower: String,
    /// The option passes the current filter.
    pub visible: bool,
}

/// Per-instance state of a combobox.
pub struct ComboboxState {
    pub options: Vec<OptionEntry>,
    /// Index of the highlighted option.
    pub active: Option<usize>,
    /// The listbox is shown.
    pub open: bool,
}

/// The normalised form text is matched in: trimmed, then lower-cased.
pub open spec fn normalise(text: Seq<char>) -> Seq<char> {
    unicode_lower(trim(text))
}

/// The entry kept for an option element with the given `id` and text
/// content; every option starts visible.
pub fn option_entry(id: String, text: &str) -> (r: OptionEntry)
    ensures
        r.id@ == id@,
        r.label_lower@ == normalise(text@),
        r.visible,
{
    let trimmed = trim_str(text);
    OptionEntry { id, label_lower: to_lowercase(trimmed.as_str()), visible: true }
}

/// A fresh, closed combobox with nothing highlighted.
pub fn new_state(options: Vec<OptionEntry>) -> (r: ComboboxState)
    ensures
        r.options@ == options@,
        r.active is None,
        !r.open,
{
    ComboboxState { options, active: None, open: false }
}

/// `r` is the lowest index of a visible option, or `None` if none is.
pub open spec fn is_first_visible(options: Seq<OptionEntry>, r: Option<usize>) -> bool {
    match r {
        Some(j) => j < options.len() && options[j as int].visible && forall|k: int|
            0 <= k < j ==> !(#[trigger] options[k]).visible,
        None => forall|k: int| 0 <= k < options.len() ==> !(#[trigger] options[k]).visible,
    }
}

pub fn first_visible_index(options: &[OptionEntry]) -> (r: Option<usize>)
    ensures
        is_first_visible(options@, r),
{
    let mut i: usize = 0;
    while i < options.len()
        invariant
            i <= options@.len(),
            forall|k: int| 0 <= k < i ==> !(#[trigger] options@[k]).visible,
        decreases options.len() - i,
    {
        if options[i].visible {
            return Some(i);
        }
        i = i + 1;
    }
    None
}

/// An option with normalised label `label` passes the normalised `query`
/// when the query is empty or occurs in the label.
pub open spec fn passes_filter(label: Seq<char>, query: Seq<char>) -> bool {
    query.len() == 0 || has_substring(label, query)
}

/// Re-filters the options against the input's value: an option stays
/// visible when the trimmed, lower-cased value is empty or a substring of
/// its label. The first visible option becomes the highlighted one.
pub fn filter_options(state: &mut ComboboxState, input_value: &str)
    ensures
        final(state).options@.len() == old(state).options@.len(),
        forall|i: int|
            0 <= i < old(state).options@.len() ==> {
                let o = old(state).options@[i];
                let f = #[trigger] final(state).options@[i];
                &&& f.id == o.id
                &&& f.label_lower == o.label_lower
                &&& f.visible == passes_filter(o.label_lower@, normalise(input_value@))
            },
        trim(input_value@).len() == 0 ==> forall|i: int|
            0 <= i < final(state).options@.len() ==> (#[trigger] final(state).options@[i]).visible,
        is_first_visible(final(state).options@, final(state).active),
        final(state).open == old(state).open,
{
    let trimmed = trim_str(input_value);
    let query = to_lowercase(trimmed.as_str());
    let empty = query.as_str().unicode_len() == 0;
    let mut out: Vec<OptionEntry> = Vec::new();
    let mut i: usize = 0;
    while i < state.options.len()
        invariant
            query@ == normalise(input_value@),
            empty == (query@.len() == 0),
            i <= state.options@.len(),
            out@.len() == i,
            state.options@ == old(state).options@,
            forall|k: int|
                0 <= k < i ==> {
                    let o = old(state).options@[k];
                    let f = #[trigger] out@[k];
                    &&& f.id == o.id
                    &&& f.label_lower == o.label_lower
                    &&& f.visible == passes_filter(o.label_lower@, query@)
                },
        decreases state.options.len() - i,
    {
        let o = &state.options[i];
        let visible = empty || contains(o.label_lower.as_str(), query.as_str());
        out.push(OptionEntry { id: o.id.clone(), label_lower: o.label_lower.clone(), visible });
        i = i + 1;
    }
    state.options = out;
    state.active = first_visible_index(state.options.as_slice());
}

/// How the highlight moves.
#[derive(Clone, Copy, Debug, PartialEq, Eq, Structural)]
pub enum Movement {
    Next(usize),
    Prev(usize),
    First,
    Last,
}

/// Position reached among `len` visible options from position `current`
/// (none: before the first): steps wrap around.
pub open spec fn next_position(current: Option<usize>, len: int, movement: Movement) -> int {
    match movement {
        Movement::First => 0,
        Movement::Last => len - 1,
        Movement::Next(step) => match current {
            Some(c) => (c + step) % len,
            None => 0,
        },
        Movement::Prev(step) => {
            let c: int = match current {
                Some(c) => c as int,
                None => 0,
            };
            (c - step) % len
        },
    }
}

/// The position the highlight moves to among `len` visible options.
pub fn compute_next(current: Option<usize>, len: usize, movement: Movement) -> (r: usize)
    requires
        len > 0,
    ensures
        r == next_position(current, len as int, movement),
        r < len,
{
    match movement {
        Movement::First => 0,
        Movement::Last => len - 1,
        Movement::Next(step) => match current {
            Some(c) => {
                let a = c % len;
                let b = step % len;
                proof {
                    vstd::arithmetic::div_mod::lemma_add_mod_noop(c as int, step as int, len as int);
                }
                if a >= len - b {
                    let r = a - (len - b);
                    proof {
                        vstd::arithmetic::div_mod::lemma_mod_sub_multiples_vanish(
                            (a + b) as int,
                            len as int,
                        );
                        vstd::arithmetic::div_mod::lemma_small_mod(r as nat, len as nat);
                    }
                    r
                } else {
                    proof {
                        vstd::arithmetic::div_mod::lemma_small_mod((a + b) as nat, len as nat);
                    }
                    a + b
                }
            },
            None => 0,
        },
        Movement::Prev(step) => {
            let c: usize = match current {
                Some(c) => c,
                None => 0,
            };
            let a = c % len;
            let b = step % len;
            proof {
                vstd::arithmetic::div_mod::lemma_sub_mod_noop(c as int, step as int, len as int);
            }
            if a >= b {
                proof {
                    vstd::arithmetic::div_mod::lemma_small_mod((a - b) as nat, len as nat);
                }
                a - b
            } else {
                let r = a + (len - b);
                proof {
                    vstd::arithmetic::div_mod::lemma_mod_add_multiples_vanish(
                        a - b,
                        len as int,
                    );
                    vstd::arithmetic::div_mod::lemma_small_mod(r as nat, len as nat);
                }
                r
            }
        },
    }
}

} // verus!

verus! {

/// Indices of the visible options, in order.
pub open spec fn visible_positions(options: Seq<OptionEntry>) -> Seq<usize>
    decreases options.len(),
{
    if options.len() == 0 {
        Seq::empty()
    } else {
        let rest = visible_positions(options.drop_last());
        if options.last().visible {
            rest.push((options.len() - 1) as usize)
        } else {
            rest
        }
    }
}

/// Position of the first occurrence of `x` in `s`.
pub open spec fn position_of(s: Seq<usize>, x: usize) -> Option<usize>
    decreases s.len(),
{
    if s.len() == 0 {
        None
    } else {
        match position_of(s.drop_last(), x) {
            Some(p) => Some(p),
            None => if s.last() == x {
                Some((s.len() - 1) as usize)
            } else {
                None
            },
        }
    }
}

proof fn lemma_position_of_push(s: Seq<usize>, y: usize, x: usize)
    ensures
        position_of(s.push(y), x) == (match position_of(s, x) {
            Some(p) => Some(p),
            None => if y == x {
                Some(s.len() as usize)
            } else {
                None
            },
        }),
{
    assert(s.push(y).drop_last() =~= s);
}

/// Where the highlight goes: among the visible options, from the position
/// of the highlighted one, by `movement`; nothing when none is visible.
pub open spec fn moved_active(
    options: Seq<OptionEntry>,
    active: Option<usize>,
    movement: Movement,
) -> Option<usize> {
    let vis = visible_positions(options);
    if vis.len() == 0 {
        None
    } else {
        let current = match active {
            Some(a) => position_of(vis, a),
            None => None,
        };
        Some(vis[next_position(current, vis.len() as int, movement)])
    }
}

/// The indices of the visible options.
pub fn visible_indices(options: &[OptionEntry]) -> (r: Vec<usize>)
    ensures
        r@ == visible_positions(options@),
{
    let mut out: Vec<usize> = Vec::new();
    let mut i: usize = 0;
    while i < options.len()
        invariant
            i <= options@.len(),
            out@ == visible_positions(options@.take(i as int)),
        decreases options.len() - i,
    {
        assert(options@.take(i + 1).drop_last() =~= options@.take(i as int));
        if options[i].visible {
            out.push(i);
        }
        i = i + 1;
    }
    assert(options@.take(options.len() as int) =~= options@);
    out
}

fn index_in(s: &Vec<usize>, x: usize) -> (r: Option<usize>)
    ensures
        r == position_of(s@, x),
{
    let mut i: usize = 0;
    while i < s.len()
        invariant
            i <= s@.len(),
            position_of(s@.take(i as int), x) is None,
        decreases s.len() - i,
    {
        proof {
            lemma_position_of_push(s@.take(i as int), s@[i as int], x);
            assert(s@.take(i as int).push(s@[i as int]) =~= s@.take(i + 1));
        }
        if s[i] == x {
            proof {
                lemma_position_of_suffix(s@, i as int, x);
            }
            return Some(i);
        }
        i = i + 1;
    }
    assert(s@.take(s.len() as int) =~= s@);
    None
}

proof fn lemma_position_of_suffix(s: Seq<usize>, i: int, x: usize)
    requires
        0 <= i < s.len(),
        position_of(s.take(i + 1), x) == Some(i as usize),
    ensures
        position_of(s, x) == Some(i as usize),
    decreases s.len() - i,
{
    if s.len() == i + 1 {
        assert(s.take(i + 1) =~= s);
    } else {
        assert(s.drop_last().take(i + 1) =~= s.take(i + 1));
        lemma_position_of_suffix(s.drop_last(), i, x);
    }
}

/// Moves the highlight among the visible options (wrapping).
pub fn move_active(state: &mut ComboboxState, movement: Movement)
    ensures
        final(state).active == moved_active(old(state).options@, old(state).active, movement),
        final(state).options@ == old(state).options@,
        final(state).open == old(state).open,
{
    let visible = visible_indices(state.options.as_slice());
    if visible.len() == 0 {
        state.active = None;
        return;
    }
    let current_pos = match state.active {
        Some(a) => index_in(&visible, a),
        None => None,
    };
    let next_pos = compute_next(current_pos, visible.len(), movement);
    state.active = Some(visible[next_pos]);
}

/// Opens the listbox. Returns `false`, changing nothing, when it is
/// already open; otherwise marks it open and, when nothing is highlighted,
/// highlights the first visible option.
pub fn open_listbox(state: &mut ComboboxState) -> (opened: bool)
    ensures
        opened == !old(state).open,
        final(state).open,
        final(state).options@ == old(state).options@,
        old(state).open ==> final(state).active == old(state).active,
        !old(state).open && old(state).active is Some ==> final(state).active == old(state).active,
        !old(state).open && old(state).active is None ==> is_first_visible(
            old(state).options@,
            final(state).active,
        ),
{
    if state.open {
        return false;
    }
    state.open = true;
    if state.active.is_none() {
        state.active = first_visible_index(state.options.as_slice());
    }
    true
}

/// Closes the listbox. Returns `false`, changing nothing, when it is
/// already closed.
pub fn close_listbox(state: &mut ComboboxState) -> (closed: bool)
    ensures
        closed == old(state).open,
        !final(state).open,
        final(state).options@ == old(state).options@,
        final(state).active == old(state).active,
{
    if !state.open {
        return false;
    }
    state.open = false;
    true
}

/// The id `aria-activedescendant` points at: that of the highlighted
/// option, or none.
pub fn active_descendant(state: &ComboboxState) -> (r: Option<String>)
    ensures
        match state.active {
            Some(i) => if i < state.options@.len() {
                r is Some && r->0@ == state.options@[i as int].id@
            } else {
                r is None
            },
            None => r is None,
        },
{
    match state.active {
        Some(i) => if i < state.options.len() {
            Some(state.options[i].id.clone())
        } else {
            None
        },
        None => None,
    }
}

/// What a keydown on the input leads to.
#[derive(Clone, Copy, Debug, PartialEq, Eq, Structural)]
pub enum ComboAction {
    Nothing,
    Open,
    Move(Movement),
    Select(usize),
    Close,
}

/// A key decision: whether to call `preventDefault`, and the action.
#[derive(Clone, Copy, Debug, PartialEq, Eq, Structural)]
pub struct ComboKey {
    pub prevent_default: bool,
    pub action: ComboAction,
}

/// The decision for `key` in a combobox that is `open` with `active`
/// highlighted: the arrows open a closed listbox and otherwise move by
/// one; PageDown/PageUp move by [`PAGE_JUMP`], Home/End to the ends, only
/// while open; Enter selects the highlighted option; Escape closes an open
/// listbox.
pub open spec fn key_decision(key: Seq<char>, open: bool, active: Option<usize>) -> ComboKey {
    let nothing = ComboKey { prevent_default: false, action: ComboAction::Nothing };
    if key == "ArrowDown"@ {
        ComboKey {
            prevent_default: true,
            action: if open {
                ComboAction::Move(Movement::Next(1))
            } else {
                ComboAction::Open
            },
        }
    } else if key == "ArrowUp"@ {
        ComboKey {
            prevent_default: true,
            action: if open {
                ComboAction::Move(Movement::Prev(1))
            } else {
                ComboAction::Open
            },
        }
    } else if key == "PageDown"@ {
        if open {
            ComboKey { prevent_default: true, action: ComboAction::Move(Movement::Next(PAGE_JUMP)) }
        } else {
            nothing
        }
    } else if key == "PageUp"@ {
        if open {
            ComboKey { prevent_default: true, action: ComboAction::Move(Movement::Prev(PAGE_JUMP)) }
        } else {
            nothing
        }
    } else if key == "Home"@ {
        if open {
            ComboKey { prevent_default: true, action: ComboAction::Move(Movement::First) }
        } else {
            nothing
        }
    } else if key == "End"@ {
        if open {
            ComboKey { prevent_default: true, action: ComboAction::Move(Movement::Last) }
        } else {
            nothing
        }
    } else if key == "Enter"@ {
        match active {
            Some(i) => ComboKey { prevent_default: true, action: ComboAction::Select(i) },
            None => nothing,
        }
    } else if key == "Escape"@ {
        if open {
            ComboKey { prevent_default: true, action: ComboAction::Close }
        } else {
            nothing
        }
    } else {
        nothing
    }
}

/// The keys of an open combobox: Home and End jump to the first and last
/// visible option, the arrows step by one and the page keys by
/// [`PAGE_JUMP`], Escape closes; on a closed one the arrows open it and the
/// other navigation keys do nothing; Enter selects the highlighted option.
pub proof fn lemma_combobox_keys(open: bool, active: Option<usize>)
    ensures
        open ==> (key_decision("Home"@, open, active) == (ComboKey { prevent_default: true, action: ComboAction::Move(Movement::First) })),
        open ==> (key_decision("End"@, open, active) == (ComboKey { prevent_default: true, action: ComboAction::Move(Movement::Last) })),
        open ==> (key_decision("ArrowDown"@, open, active) == (ComboKey { prevent_default: true, action: ComboAction::Move(Movement::Next(1)) })),
        open ==> (key_decision("ArrowUp"@, open, active) == (ComboKey { prevent_default: true, action: ComboAction::Move(Movement::Prev(1)) })),
        open ==> (key_decision("PageDown"@, open, active) == (ComboKey { prevent_default: true, action: ComboAction::Move(Movement::Next(5)) })),
        open ==> (key_decision("PageUp"@, open, active) == (ComboKey { prevent_default: true, action: ComboAction::Move(Movement::Prev(5)) })),
        open ==> (key_decision("Escape"@, open, active) == (ComboKey { prevent_default: true, action: ComboAction::Close })),
        !open ==> (key_decision("ArrowDown"@, open, active) == (ComboKey { prevent_default: true, action: ComboAction::Open })),
        !open ==> (key_decision("ArrowUp"@, open, active) == (ComboKey { prevent_default: true, action: ComboAction::Open })),
        !open ==> (key_decision("Home"@, open, active) == (ComboKey { prevent_default: false, action: ComboAction::Nothing })),
        !open ==> (key_decision("End"@, open, active) == (ComboKey { prevent_default: false, action: ComboAction::Nothing })),
        !open ==> (key_decision("PageDown"@, open, active) == (ComboKey { prevent_default: false, action: ComboAction::Nothing })),
        !open ==> (key_decision("PageUp"@, open, active) == (ComboKey { prevent_default: false, action: ComboAction::Nothing })),
        !open ==> (key_decision("Escape"@, open, active) == (ComboKey { prevent_default: false, action: ComboAction::Nothing })),
        key_decision("Enter"@, open, active) == match active {
            Some(i) => (ComboKey { prevent_default: true, action: ComboAction::Select(i) }),
            None => (ComboKey { prevent_default: false, action: ComboAction::Nothing }),
        },
{
    reveal_strlit("ArrowDown");
    reveal_strlit("ArrowUp");
    reveal_strlit("PageDown");
    reveal_strlit("PageUp");
    reveal_strlit("Home");
    reveal_strlit("End");
    reveal_strlit("Enter");
    reveal_strlit("Escape");
    assert("ArrowDown"@.len() == 9 && "ArrowUp"@.len() == 7 && "PageDown"@.len() == 8);
    assert("PageUp"@.len() == 6 && "Home"@.len() == 4 && "End"@.len() == 3);
    assert("Enter"@.len() == 5 && "Escape"@.len() == 6);
    assert("PageUp"@[0] != "Escape"@[0]);
    assert("PageUp"@ != "Escape"@);
    assert("Enter"@ != "Escape"@);
    assert("ArrowDown"@ != "ArrowUp"@);
    assert("ArrowDown"@ != "PageDown"@);
    assert("Home"@ != "End"@);
}

/// Decides what a keydown on the input does.
pub fn decide_key(state: &ComboboxState, key: &str) -> (r: ComboKey)
    ensures
        r == key_decision(key@, state.open, state.active),
        state.open ==> (key@ == "Home"@ ==> r == (ComboKey { prevent_default: true, action: ComboAction::Move(Movement::First) })),
        state.open ==> (key@ == "End"@ ==> r == (ComboKey { prevent_default: true, action: ComboAction::Move(Movement::Last) })),
        state.open ==> (key@ == "ArrowDown"@ ==> r == (ComboKey { prevent_default: true, action: ComboAction::Move(Movement::Next(1)) })),
        state.open ==> (key@ == "ArrowUp"@ ==> r == (ComboKey { prevent_default: true, action: ComboAction::Move(Movement::Prev(1)) })),
        state.open ==> (key@ == "PageDown"@ ==> r == (ComboKey { prevent_default: true, action: ComboAction::Move(Movement::Next(5)) })),
        state.open ==> (key@ == "PageUp"@ ==> r == (ComboKey { prevent_default: true, action: ComboAction::Move(Movement::Prev(5)) })),
        state.open ==> (key@ == "Escape"@ ==> r == (ComboKey { prevent_default: true, action: ComboAction::Close })),
        !state.open ==> (key@ == "ArrowDown"@ || key@ == "ArrowUp"@ ==> r == (ComboKey { prevent_default: true, action: ComboAction::Open })) && (key@ == "Home"@ || key@ == "End"@ || key@ == "PageDown"@ || key@ == "PageUp"@
            || key@ == "Escape"@ ==> r == (ComboKey { prevent_default: false, action: ComboAction::Nothing })),
        key@ == "Enter"@ ==> r == match state.active {
            Some(i) => (ComboKey { prevent_default: true, action: ComboAction::Select(i) }),
            None => (ComboKey { prevent_default: false, action: ComboAction::Nothing }),
        },
{
    proof {
        lemma_combobox_keys(state.open, state.active);
    }
    let nothing = ComboKey { prevent_default: false, action: ComboAction::Nothing };
    let open = state.open;
    if str_eq(key, "ArrowDown") {
        ComboKey {
            prevent_default: true,
            action: if open {
                ComboAction::Move(Movement::Next(1))
            } else {
                ComboAction::Open
            },
        }
    } else if str_eq(key, "ArrowUp") {
        ComboKey {
            prevent_default: true,
            action: if open {
                ComboAction::Move(Movement::Prev(1))
            } else {
                ComboAction::Open
            },
        }
    } else if str_eq(key, "PageDown") {
        if open {
            ComboKey { prevent_default: true, action: ComboAction::Move(Movement::Next(PAGE_JUMP)) }
        } else {
            nothing
        }
    } else if str_eq(key, "PageUp") {
        if open {
            ComboKey { prevent_default: true, action: ComboAction::Move(Movement::Prev(PAGE_JUMP)) }
        } else {
            nothing
        }
    } else if str_eq(key, "Home") {
        if open {
            ComboKey { prevent_default: true, action: ComboAction::Move(Movement::First) }
        } else {
            nothing
        }
    } else if str_eq(key, "End") {
        if open {
            ComboKey { prevent_default: true, action: ComboAction::Move(Movement::Last) }
        } else {
            nothing
        }
    } else if str_eq(key, "Enter") {
        match state.active {
            Some(i) => ComboKey { prevent_default: true, action: ComboAction::Select(i) },
            None => nothing,
        }
    } else if str_eq(key, "Escape") {
        if open {
            ComboKey { prevent_default: true, action: ComboAction::Close }
        } else {
            nothing
        }
    } else {
        nothing
    }
}

/// Selects option `idx`: its value is its `data-value` attribute, or its
/// text content when it has none. The input takes that value, the options
/// are re-filtered against it and the listbox closes. Returns the value to
/// write into the input, or `None` (changing nothing) when there is no
/// option `idx`.
pub fn select_option(
    state: &mut ComboboxState,
    idx: usize,
    data_value: Option<String>,
    text: String,
) -> (r: Option<String>)
    ensures
        idx >= old(state).options@.len() ==> r is None && final(state).options@ == old(
            state,
        ).options@ && final(state).active == old(state).active && final(state).open == old(
            state,
        ).open,
        idx < old(state).options@.len() ==> {
            let value = match data_value {
                Some(v) => v@,
                None => text@,
            };
            &&& r is Some && r->0@ == value
            &&& final(state).options@.len() == old(state).options@.len()
            &&& forall|i: int|
                0 <= i < old(state).options@.len() ==> (#[trigger] final(state).options@[i]).visible
                    == passes_filter(old(state).options@[i].label_lower@, normalise(value))
                    && final(state).options@[i].id == old(state).options@[i].id
                    && final(state).options@[i].label_lower == old(state).options@[i].label_lower
            &&& is_first_visible(final(state).options@, final(state).active)
            &&& !final(state).open
        },
{
    if idx >= state.options.len() {
        return None;
    }
    let value = match data_value {
        Some(v) => v,
        None => text,
    };
    filter_options(state, value.as_str());
    close_listbox(state);
    Some(value)
}

} // verus!

verus! {

/// Moving the highlight forward by `step` and back by `step` returns to the
/// position it started from.
pub proof fn lemma_next_prev_inverse(p: usize, len: int, step: usize)
    requires
        0 <= p < len <= usize::MAX,
    ensures
        ({
            let q = next_position(Some(p), len, Movement::Next(step));
            next_position(Some(q as usize), len, Movement::Prev(step)) == p
        }),
{
    let x = p + step;
    let q = x % len;
    vstd::arithmetic::div_mod::lemma_mod_bound(x as int, len);
    vstd::arithmetic::div_mod::lemma_sub_mod_noop(x as int, step as int, len);
    vstd::arithmetic::div_mod::lemma_sub_mod_noop_right(q, step as int, len);
    vstd::arithmetic::div_mod::lemma_small_mod(p as nat, len as nat);
    assert(x - step == p);
    assert(q as usize == q);
    assert(next_position(Some(q as usize), len, Movement::Prev(step)) == (q - step) % len);
}

/// Moving back by `step` and forward by `step` returns to the position it
/// started from.
pub proof fn lemma_prev_next_inverse(p: usize, len: int, step: usize)
    requires
        0 <= p < len <= usize::MAX,
    ensures
        ({
            let q = next_position(Some(p), len, Movement::Prev(step));
            next_position(Some(q as usize), len, Movement::Next(step)) == p
        }),
{
    let q = (p - step) % len;
    vstd::arithmetic::div_mod::lemma_mod_bound(p - step, len);
    vstd::arithmetic::div_mod::lemma_add_mod_noop(p - step, step as int, len);
    vstd::arithmetic::div_mod::lemma_mod_twice(p - step, len);
    vstd::arithmetic::div_mod::lemma_mod_twice(step as int, len);
    vstd::arithmetic::div_mod::lemma_add_mod_noop(q, step as int, len);
    vstd::arithmetic::div_mod::lemma_small_mod(p as nat, len as nat);
}

} // verus!
