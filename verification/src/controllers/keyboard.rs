//! Roving tabindex: a focusable collection in which only one item is in the
//! tab sequence (`tabindex="0"`) and arrow keys, Home/End and type-ahead
//! move focus among the enabled items.
use vstd::prelude::*;

use crate::text::{
    ascii_lower, ascii_lower_char, attr_equals, attr_is, has_prefix, is_control, is_control_char,
    starts_with, to_ascii_lower_char, to_ascii_lowercase, trim, trim_str,
};

verus! {

/// Which arrow keys move focus.
#[derive(Clone, Copy, Debug, PartialEq, Eq, Structural)]
pub enum Orientation {
    Horizontal,
    Vertical,
    Both,
}

/// Options of a roving-tabindex collection.
pub struct RovingOpts {
    pub orientation: Orientation,
    pub wrap: bool,
    pub type_ahead: bool,
}

impl Default for RovingOpts {
    /// Both orientations, wrapping, no type-ahead.
    fn default() -> (r: Self)
        ensures
            r.orientation == Orientation::Both,
            r.wrap,
            !r.type_ahead,
    {
        RovingOpts { orientation: Orientation::Both, wrap: true, type_ahead: false }
    }
}

/// What the roving logic reads of one item element.
pub struct RovingItem {
    /// The element carries a `disabled` attribute.
    pub disabled: bool,
    /// Value of `aria-disabled`.
    pub aria_disabled: Option<String>,
    /// Value of `aria-selected`.
    pub aria_selected: Option<String>,
    /// Value of `tabindex`.
    pub tabindex: Option<String>,
    /// Text content of the element.
    pub text: String,
}

/// An item takes focus unless it is `disabled` or `aria-disabled="true"`.
pub open spec fn item_enabled(item: RovingItem) -> bool {
    !item.disabled && !attr_is(item.aria_disabled, "true"@)
}

/// Whether the item may take focus.
pub fn is_enabled(item: &RovingItem) -> (r: bool)
    ensures
        r == item_enabled(*item),
{
    if item.disabled {
        return false;
    }
    if attr_equals(&item.aria_disabled, "true") {
        return false;
    }
    true
}

/// Direction of a navigation key.
#[derive(Clone, Copy, Debug, PartialEq, Eq, Structural)]
pub enum Direction {
    Next,
    Prev,
    First,
    Last,
}

pub open spec fn enabled_at(items: Seq<RovingItem>, i: int) -> bool {
    item_enabled(items[i])
}

/// The index the forward scan starts after: `current`, or the last index
/// when `current` lies past the end.
pub open spec fn fwd_origin(current: int, n: int) -> int {
    if current < n {
        current
    } else {
        n - 1
    }
}

/// Position of `j` in the forward scan from `c`: `c + 1, .., n - 1, 0, .., c`.
pub open spec fn fwd_rank(c: int, j: int, n: int) -> int {
    if j > c {
        j - c - 1
    } else {
        j + n - c - 1
    }
}

/// Position of `j` in the backward scan from `c`: `c - 1, .., 0, n - 1, .., c`.
pub open spec fn bwd_rank(c: int, j: int, n: int) -> int {
    if j < c {
        c - 1 - j
    } else {
        c - 1 - j + n
    }
}

/// `r` is the first enabled item that a forward scan from `current` meets
/// (without wrapping unless `wrap`), or `None` when it meets none.
pub open spec fn is_forward_step(
    items: Seq<RovingItem>,
    current: int,
    wrap: bool,
    r: Option<usize>,
) -> bool {
    let n = items.len() as int;
    let c = fwd_origin(current, n);
    match r {
        Some(j) => {
            &&& 0 <= j < n
            &&& enabled_at(items, j as int)
            &&& (wrap || j > c)
            &&& forall|k: int|
                0 <= k < n && (wrap || k > c) && #[trigger] enabled_at(items, k) ==> fwd_rank(
                    c,
                    j as int,
                    n,
                ) <= fwd_rank(c, k, n)
        },
        None => forall|k: int| 0 <= k < n && (wrap || k > c) ==> !#[trigger] enabled_at(items, k),
    }
}

/// `r` is the first enabled item that a backward scan from `current` meets
/// (without wrapping unless `wrap`), or `None` when it meets none.
pub open spec fn is_backward_step(
    items: Seq<RovingItem>,
    current: int,
    wrap: bool,
    r: Option<usize>,
) -> bool {
    let n = items.len() as int;
    let c = current;
    match r {
        Some(j) => {
            &&& 0 <= j < n
            &&& enabled_at(items, j as int)
            &&& (wrap || j < c)
            &&& forall|k: int|
                0 <= k < n && (wrap || k < c) && #[trigger] enabled_at(items, k) ==> bwd_rank(
                    c,
                    j as int,
                    n,
                ) <= bwd_rank(c, k, n)
        },
        None => forall|k: int| 0 <= k < n && (wrap || k < c) ==> !#[trigger] enabled_at(items, k),
    }
}

/// Moves forward from `current` to the next enabled item, wrapping to the
/// start when `wrap` is set; `None` when no enabled item is reached.
pub fn step_forward(items: &[RovingItem], current: usize, wrap: bool) -> (r: Option<usize>)
    ensures
        is_forward_step(items@, current as int, wrap, r),
{
    let n = items.len();
    if n == 0 {
        return None;
    }
    let c: usize = if current < n {
        current
    } else {
        n - 1
    };
    let ahead = n - 1 - c;
    let mut k: usize = 0;
    while k < n
        invariant
            n == items@.len(),
            c == fwd_origin(current as int, n as int),
            ahead == n - 1 - c,
            k <= n,
            forall|p: int|
                0 <= p < n && (wrap || p > c) && fwd_rank(c as int, p, n as int) < k
                    ==> !#[trigger] enabled_at(items@, p),
        decreases n - k,
    {
        let j: usize = if k < ahead {
            c + 1 + k
        } else {
            k - ahead
        };
        assert(fwd_rank(c as int, j as int, n as int) == k);
        if !wrap && j <= c {
            assert forall|p: int| 0 <= p < n && (wrap || p > c) implies !#[trigger] enabled_at(
                items@,
                p,
            ) by {
                assert(fwd_rank(c as int, p, n as int) < k);
            }
            return None;
        }
        if is_enabled(&items[j]) {
            assert forall|p: int|
                0 <= p < n && (wrap || p > c) && #[trigger] enabled_at(items@, p) implies fwd_rank(
                c as int,
                j as int,
                n as int,
            ) <= fwd_rank(c as int, p, n as int) by {}
            return Some(j);
        }
        k = k + 1;
    }
    assert forall|p: int| 0 <= p < n && (wrap || p > c) implies !#[trigger] enabled_at(items@, p) by {
        assert(fwd_rank(c as int, p, n as int) < n);
    }
    None
}

/// Moves backward from `current` to the previous enabled item, wrapping to
/// the end when `wrap` is set; `None` when no enabled item is reached.
pub fn step_backward(items: &[RovingItem], current: usize, wrap: bool) -> (r: Option<usize>)
    requires
        items@.len() == 0 || current <= items@.len(),
    ensures
        is_backward_step(items@, current as int, wrap, r),
{
    let n = items.len();
    if n == 0 {
        return None;
    }
    let c = current;
    let mut k: usize = 0;
    while k < n
        invariant
            n == items@.len(),
            c <= n,
            c == current,
            k <= n,
            forall|p: int|
                0 <= p < n && (wrap || p < c) && bwd_rank(c as int, p, n as int) < k
                    ==> !#[trigger] enabled_at(items@, p),
        decreases n - k,
    {
        let j: usize = if k < c {
            c - 1 - k
        } else {
            n - 1 - (k - c)
        };
        assert(bwd_rank(c as int, j as int, n as int) == k);
        if !wrap && j >= c {
            assert forall|p: int| 0 <= p < n && (wrap || p < c) implies !#[trigger] enabled_at(
                items@,
                p,
            ) by {
                assert(bwd_rank(c as int, p, n as int) < k);
            }
            return None;
        }
        if is_enabled(&items[j]) {
            return Some(j);
        }
        k = k + 1;
    }
    assert forall|p: int| 0 <= p < n && (wrap || p < c) implies !#[trigger] enabled_at(items@, p) by {
        assert(bwd_rank(c as int, p, n as int) < n);
    }
    None
}

/// `r` is the lowest enabled index, or `None` when every item is disabled.
pub open spec fn is_first_enabled(items: Seq<RovingItem>, r: Option<usize>) -> bool {
    match r {
        Some(j) => 0 <= j < items.len() && enabled_at(items, j as int) && forall|k: int|
            0 <= k < j ==> !#[trigger] enabled_at(items, k),
        None => forall|k: int| 0 <= k < items.len() ==> !#[trigger] enabled_at(items, k),
    }
}

/// `r` is the highest enabled index, or `None` when every item is disabled.
pub open spec fn is_last_enabled(items: Seq<RovingItem>, r: Option<usize>) -> bool {
    match r {
        Some(j) => 0 <= j < items.len() && enabled_at(items, j as int) && forall|k: int|
            j < k < items.len() ==> !#[trigger] enabled_at(items, k),
        None => forall|k: int| 0 <= k < items.len() ==> !#[trigger] enabled_at(items, k),
    }
}

pub fn first_enabled(items: &[RovingItem]) -> (r: Option<usize>)
    ensures
        is_first_enabled(items@, r),
{
    let mut i: usize = 0;
    while i < items.len()
        invariant
            i <= items@.len(),
            forall|k: int| 0 <= k < i ==> !#[trigger] enabled_at(items@, k),
        decreases items.len() - i,
    {
        if is_enabled(&items[i]) {
            return Some(i);
        }
        i = i + 1;
    }
    None
}

pub fn last_enabled(items: &[RovingItem]) -> (r: Option<usize>)
    ensures
        is_last_enabled(items@, r),
{
    let mut i: usize = items.len();
    while i > 0
        invariant
            i <= items@.len(),
            forall|k: int| i <= k < items@.len() ==> !#[trigger] enabled_at(items@, k),
        decreases i,
    {
        if is_enabled(&items[i - 1]) {
            return Some(i - 1);
        }
        i = i - 1;
    }
    None
}

/// The item a navigation key moves focus to.
pub open spec fn is_next_in_direction(
    items: Seq<RovingItem>,
    current: int,
    direction: Direction,
    wrap: bool,
    r: Option<usize>,
) -> bool {
    match direction {
        Direction::First => is_first_enabled(items, r),
        Direction::Last => is_last_enabled(items, r),
        Direction::Next => is_forward_step(items, current, wrap, r),
        Direction::Prev => is_backward_step(items, current, wrap, r),
    }
}

/// The item focus moves to for `direction`: the first or last enabled item
/// for Home/End, the next or previous enabled item for the arrows.
pub fn find_next(items: &[RovingItem], current: usize, direction: Direction, wrap: bool) -> (r:
    Option<usize>)
    requires
        items@.len() == 0 || current <= items@.len(),
    ensures
        is_next_in_direction(items@, current as int, direction, wrap, r),
{
    match direction {
        Direction::First => first_enabled(items),
        Direction::Last => last_enabled(items),
        Direction::Next => step_forward(items, current, wrap),
        Direction::Prev => step_backward(items, current, wrap),
    }
}

} // verus!

verus! {

/// The text an item is matched against during type-ahead: its trimmed text
/// content in ASCII lower case.
pub open spec fn label_key(text: Seq<char>) -> Seq<char> {
    ascii_lower(trim(text))
}

/// Item `j` is enabled and its label starts with `prefix`.
pub open spec fn prefix_match(items: Seq<RovingItem>, j: int, prefix: Seq<char>) -> bool {
    enabled_at(items, j) && has_prefix(label_key(items[j].text@), prefix)
}

/// The index `o` places after `current` in a cycle of length `n`.
pub open spec fn cyclic_index(current: int, o: int, n: int) -> int {
    (current + o) % n
}

/// `r` is the first item after `current`, cyclically, that
/// [`prefix_match`]es `prefix`; `None` for an empty prefix or no match.
pub open spec fn is_prefix_search(
    items: Seq<RovingItem>,
    current: int,
    prefix: Seq<char>,
    r: Option<usize>,
) -> bool {
    let n = items.len() as int;
    if prefix.len() == 0 {
        r is None
    } else {
        match r {
            Some(j) => exists|o: int|
                1 <= o <= n && j == #[trigger] cyclic_index(current, o, n) && prefix_match(
                    items,
                    j as int,
                    prefix,
                ) && forall|p: int|
                    1 <= p < o ==> !#[trigger] prefix_match(items, cyclic_index(current, p, n), prefix),
            None => forall|o: int|
                1 <= o <= n ==> !#[trigger] prefix_match(items, cyclic_index(current, o, n), prefix),
        }
    }
}

/// Whether item `item` is enabled and its label starts with `prefix`.
fn item_matches_prefix(item: &RovingItem, prefix: &str) -> (r: bool)
    ensures
        r == (item_enabled(*item) && has_prefix(label_key(item.text@), prefix@)),
{
    if !is_enabled(item) {
        return false;
    }
    let trimmed = trim_str(item.text.as_str());
    let key = to_ascii_lowercase(trimmed.as_str());
    starts_with(key.as_str(), prefix)
}

/// Type-ahead search: the first enabled item after `current` (wrapping
/// around, ending at `current` itself) whose trimmed, lower-cased text
/// starts with `prefix`.
pub fn find_by_prefix(items: &[RovingItem], current: usize, prefix: &str) -> (r: Option<usize>)
    requires
        current + items@.len() <= usize::MAX,
    ensures
        is_prefix_search(items@, current as int, prefix@, r),
{
    if prefix.unicode_len() == 0 {
        return None;
    }
    let n = items.len();
    if n == 0 {
        return None;
    }
    let mut offset: usize = 1;
    loop
        invariant
            n == items@.len(),
            n > 0,
            current + n <= usize::MAX,
            prefix@.len() > 0,
            1 <= offset <= n,
            forall|p: int|
                1 <= p < offset ==> !#[trigger] prefix_match(
                    items@,
                    cyclic_index(current as int, p, n as int),
                    prefix@,
                ),
        ensures
            forall|p: int|
                1 <= p <= n ==> !#[trigger] prefix_match(
                    items@,
                    cyclic_index(current as int, p, n as int),
                    prefix@,
                ),
        decreases n - offset,
    {
        let idx = (current + offset) % n;
        if item_matches_prefix(&items[idx], prefix) {
            assert(prefix_match(items@, idx as int, prefix@));
            assert(cyclic_index(current as int, offset as int, n as int) == idx);
            return Some(idx);
        }
        if offset == n {
            break;
        }
        offset = offset + 1;
    }
    None
}

/// Index of the first item whose optional attribute, read by `attr`, equals
/// `lit`.
pub open spec fn first_with(items: Seq<RovingItem>, sel: bool, lit: Seq<char>) -> Option<int> {
    if exists|i: int| 0 <= i < items.len() && attr_is(pick_attr(items[i], sel), lit) {
        Some(
            choose|i: int|
                0 <= i < items.len() && attr_is(pick_attr(items[i], sel), lit) && forall|k: int|
                    0 <= k < i ==> !attr_is(#[trigger] pick_attr(items[k], sel), lit),
        )
    } else {
        None
    }
}

/// `aria-selected` when `sel`, `tabindex` otherwise.
pub open spec fn pick_attr(item: RovingItem, sel: bool) -> Option<String> {
    if sel {
        item.aria_selected
    } else {
        item.tabindex
    }
}

/// `r` is the lowest index whose picked attribute equals `lit`, or `None`.
pub open spec fn is_first_with(
    items: Seq<RovingItem>,
    sel: bool,
    lit: Seq<char>,
    r: Option<usize>,
) -> bool {
    match r {
        Some(j) => 0 <= j < items.len() && attr_is(pick_attr(items[j as int], sel), lit)
            && forall|k: int| 0 <= k < j ==> !attr_is(#[trigger] pick_attr(items[k], sel), lit),
        None => forall|k: int|
            0 <= k < items.len() ==> !attr_is(#[trigger] pick_attr(items[k], sel), lit),
    }
}

fn position_with(items: &[RovingItem], sel: bool, lit: &str) -> (r: Option<usize>)
    ensures
        is_first_with(items@, sel, lit@, r),
{
    let mut i: usize = 0;
    while i < items.len()
        invariant
            i <= items@.len(),
            forall|k: int| 0 <= k < i ==> !attr_is(#[trigger] pick_attr(items@[k], sel), lit@),
        decreases items.len() - i,
    {
        let hit = if sel {
            attr_equals(&items[i].aria_selected, lit)
        } else {
            attr_equals(&items[i].tabindex, lit)
        };
        if hit {
            return Some(i);
        }
        i = i + 1;
    }
    None
}

/// The item that starts in the tab sequence: the focused item (`focused`,
/// when it is one of the items), else the first `aria-selected="true"`
/// item, else the first enabled item, else the first item.
pub open spec fn is_initial_index(items: Seq<RovingItem>, focused: Option<usize>, r: usize) -> bool {
    if focused is Some && focused->0 < items.len() {
        r == focused->0
    } else if exists|i: int| 0 <= i < items.len() && attr_is(#[trigger] items[i].aria_selected, "true"@) {
        is_first_with(items, true, "true"@, Some(r))
    } else if exists|i: int| 0 <= i < items.len() && #[trigger] enabled_at(items, i) {
        is_first_enabled(items, Some(r))
    } else {
        r == 0
    }
}

pub fn initial_index(items: &[RovingItem], focused: Option<usize>) -> (r: usize)
    ensures
        is_initial_index(items@, focused, r),
{
    if let Some(f) = focused {
        if f < items.len() {
            return f;
        }
    }
    match position_with(items, true, "true") {
        Some(i) => i,
        None => {
            assert(!exists|i: int|
                0 <= i < items@.len() && attr_is(#[trigger] items@[i].aria_selected, "true"@)) by {
                assert forall|i: int|
                    0 <= i < items@.len() implies !attr_is(
                    #[trigger] items@[i].aria_selected,
                    "true"@,
                ) by {
                    assert(pick_attr(items@[i], true) == items@[i].aria_selected);
                }
            }
            match first_enabled(items) {
                Some(i) => i,
                None => 0,
            }
        },
    }
}

/// The index focus is taken to be at: the focused item (`active`, when it
/// is one of the items), else the first item with `tabindex="0"`, else 0.
pub open spec fn is_current_index(items: Seq<RovingItem>, active: Option<usize>, r: usize) -> bool {
    if active is Some && active->0 < items.len() {
        r == active->0
    } else if exists|i: int| 0 <= i < items.len() && attr_is(#[trigger] items[i].tabindex, "0"@) {
        is_first_with(items, false, "0"@, Some(r))
    } else {
        r == 0
    }
}

pub fn current_index(items: &[RovingItem], active: Option<usize>) -> (r: usize)
    ensures
        is_current_index(items@, active, r),
        items@.len() > 0 ==> r < items@.len(),
{
    if let Some(a) = active {
        if a < items.len() {
            return a;
        }
    }
    match position_with(items, false, "0") {
        Some(i) => i,
        None => {
            assert(!exists|i: int|
                0 <= i < items@.len() && attr_is(#[trigger] items@[i].tabindex, "0"@)) by {
                assert forall|i: int|
                    0 <= i < items@.len() implies !attr_is(#[trigger] items@[i].tabindex, "0"@) by {
                    assert(pick_attr(items@[i], false) == items@[i].tabindex);
                }
            }
            0
        },
    }
}

/// The `tabindex` each item gets when `active` is the one in the tab
/// sequence: `"0"` for it, `"-1"` for all others.
pub fn sync_tabindex(len: usize, active: usize) -> (r: Vec<String>)
    ensures
        r@.len() == len,
        forall|i: int| 0 <= i < len ==> (#[trigger] r@[i])@ == (if i == active {
            "0"@
        } else {
            "-1"@
        }),
{
    let mut out: Vec<String> = Vec::new();
    let mut i: usize = 0;
    while i < len
        invariant
            i <= len,
            out@.len() == i,
            forall|k: int| 0 <= k < i ==> (#[trigger] out@[k])@ == (if k == active {
                "0"@
            } else {
                "-1"@
            }),
        decreases len - i,
    {
        if i == active {
            out.push(String::from_str("0"));
        } else {
            out.push(String::from_str("-1"));
        }
        i = i + 1;
    }
    out
}

// ---------------------------------------------------------------------------
// Keydown
// ---------------------------------------------------------------------------

/// The navigation a key asks for under `orientation`.
pub open spec fn key_direction(key: Seq<char>, orientation: Orientation) -> Option<Direction> {
    let horizontal = orientation == Orientation::Horizontal || orientation == Orientation::Both;
    let vertical = orientation == Orientation::Vertical || orientation == Orientation::Both;
    if key == "ArrowRight"@ && horizontal {
        Some(Direction::Next)
    } else if key == "ArrowLeft"@ && horizontal {
        Some(Direction::Prev)
    } else if key == "ArrowDown"@ && vertical {
        Some(Direction::Next)
    } else if key == "ArrowUp"@ && vertical {
        Some(Direction::Prev)
    } else if key == "Home"@ {
        Some(Direction::First)
    } else if key == "End"@ {
        Some(Direction::Last)
    } else {
        None
    }
}

pub fn direction_for_key(key: &str, orientation: Orientation) -> (r: Option<Direction>)
    ensures
        r == key_direction(key@, orientation),
        orientation != Orientation::Horizontal ==> (key@ == "ArrowDown"@ ==> r == Some(
            Direction::Next,
        )) && (key@ == "ArrowUp"@ ==> r == Some(Direction::Prev)),
        orientation != Orientation::Vertical ==> (key@ == "ArrowRight"@ ==> r == Some(
            Direction::Next,
        )) && (key@ == "ArrowLeft"@ ==> r == Some(Direction::Prev)),
        orientation == Orientation::Horizontal ==> (key@ == "ArrowDown"@ || key@ == "ArrowUp"@
            ==> r is None),
        orientation == Orientation::Vertical ==> (key@ == "ArrowLeft"@ || key@ == "ArrowRight"@
            ==> r is None),
        key@ == "Home"@ ==> r == Some(Direction::First),
        key@ == "End"@ ==> r == Some(Direction::Last),
{
    proof {
        lemma_navigation_keys(orientation);
    }
    let horizontal = matches!(orientation, Orientation::Horizontal | Orientation::Both);
    let vertical = matches!(orientation, Orientation::Vertical | Orientation::Both);
    if str_eq_lit(key, "ArrowRight") && horizontal {
        Some(Direction::Next)
    } else if str_eq_lit(key, "ArrowLeft") && horizontal {
        Some(Direction::Prev)
    } else if str_eq_lit(key, "ArrowDown") && vertical {
        Some(Direction::Next)
    } else if str_eq_lit(key, "ArrowUp") && vertical {
        Some(Direction::Prev)
    } else if str_eq_lit(key, "Home") {
        Some(Direction::First)
    } else if str_eq_lit(key, "End") {
        Some(Direction::Last)
    } else {
        None
    }
}

/// The navigation keys: Down and Up step forward and back in a vertical
/// (or two-way) collection, Right and Left in a horizontal (or two-way)
/// one, the arrows of the other axis do nothing, and Home and End go to the
/// ends whatever the orientation.
pub proof fn lemma_navigation_keys(orientation: Orientation)
    ensures
        orientation != Orientation::Horizontal ==> key_direction("ArrowDown"@, orientation) == Some(
            Direction::Next,
        ) && key_direction("ArrowUp"@, orientation) == Some(Direction::Prev),
        orientation != Orientation::Vertical ==> key_direction("ArrowRight"@, orientation) == Some(
            Direction::Next,
        ) && key_direction("ArrowLeft"@, orientation) == Some(Direction::Prev),
        orientation == Orientation::Horizontal ==> key_direction("ArrowDown"@, orientation) is None
            && key_direction("ArrowUp"@, orientation) is None,
        orientation == Orientation::Vertical ==> key_direction("ArrowLeft"@, orientation) is None
            && key_direction("ArrowRight"@, orientation) is None,
        key_direction("Home"@, orientation) == Some(Direction::First),
        key_direction("End"@, orientation) == Some(Direction::Last),
{
    reveal_strlit("ArrowDown");
    reveal_strlit("ArrowUp");
    reveal_strlit("ArrowLeft");
    reveal_strlit("ArrowRight");
    reveal_strlit("Home");
    reveal_strlit("End");
    assert("ArrowDown"@.len() == 9 && "ArrowLeft"@.len() == 9 && "ArrowUp"@.len() == 7);
    assert("ArrowRight"@.len() == 10 && "Home"@.len() == 4 && "End"@.len() == 3);
    assert("ArrowDown"@[5] != "ArrowLeft"@[5]);
    assert("ArrowDown"@ != "ArrowLeft"@);
    assert("ArrowDown"@ != "ArrowRight"@);
    assert("ArrowUp"@ != "ArrowRight"@);
    assert("ArrowUp"@ != "ArrowLeft"@);
    assert("ArrowLeft"@ != "ArrowRight"@);
}

fn str_eq_lit(a: &str, b: &str) -> (r: bool)
    ensures
        r == (a@ == b@),
{
    crate::text::str_eq(a, b)
}

/// The state a roving collection keeps between key presses.
pub struct RovingState {
    pub items: Vec<RovingItem>,
    pub opts: RovingOpts,
    /// Characters typed so far in the current type-ahead burst (lower case).
    pub type_buffer: String,
}

/// What the DOM glue does after a key press.
#[derive(Clone, Copy, Debug, PartialEq, Eq, Structural)]
pub struct KeyOutcome {
    /// Call `preventDefault` on the event.
    pub prevent_default: bool,
    /// Move the tab stop to this item and focus it.
    pub focus: Option<usize>,
    /// The key was taken as a type-ahead character: record its time.
    pub typed: bool,
}

/// A single printable character that type-ahead takes.
pub open spec fn is_type_ahead_key(key: Seq<char>) -> bool {
    key.len() == 1 && !is_control_char(key[0])
}

/// The type-ahead buffer after `key` is typed: cleared first when the
/// previous burst has expired, then extended by the lower-cased character.
pub open spec fn next_type_buffer(buffer: Seq<char>, key: Seq<char>, expired: bool) -> Seq<char> {
    (if expired {
        Seq::empty()
    } else {
        buffer
    }).push(ascii_lower_char(key[0]))
}

/// Handles one keydown on the collection. `active` is the position of the
/// focused element among the items, if it is one of them; `buffer_expired`
/// says that more than the type-ahead timeout has passed since the last
/// typed character.
pub fn handle_keydown(
    state: &mut RovingState,
    key: &str,
    active: Option<usize>,
    buffer_expired: bool,
) -> (r: KeyOutcome)
    requires
        old(state).items@.len() < usize::MAX / 2,
    ensures
        final(state).items@ == old(state).items@,
        final(state).opts == old(state).opts,
        ({
            let items = old(state).items@;
            let opts = old(state).opts;
            if items.len() == 0 {
                r == KeyOutcome { prevent_default: false, focus: None, typed: false }
                    && final(state).type_buffer@ == old(state).type_buffer@
            } else {
                exists|cur: usize|
                    is_current_index(items, active, cur) && cur < items.len() && match key_direction(
                        key@,
                        opts.orientation,
                    ) {
                        Some(d) => r.prevent_default && !r.typed && is_next_in_direction(
                            items,
                            cur as int,
                            d,
                            opts.wrap,
                            r.focus,
                        ) && final(state).type_buffer@ == old(state).type_buffer@,
                        None => if opts.type_ahead && is_type_ahead_key(key@) {
                            let buf = next_type_buffer(
                                old(state).type_buffer@,
                                key@,
                                buffer_expired,
                            );
                            r.typed && final(state).type_buffer@ == buf && is_prefix_search(
                                items,
                                cur as int,
                                buf,
                                r.focus,
                            ) && r.prevent_default == r.focus is Some
                        } else {
                            r == KeyOutcome { prevent_default: false, focus: None, typed: false }
                                && final(state).type_buffer@ == old(state).type_buffer@
                        },
                    }
            }
        }),
{
    if state.items.len() == 0 {
        return KeyOutcome { prevent_default: false, focus: None, typed: false };
    }
    let current = current_index(state.items.as_slice(), active);
    let dir = direction_for_key(key, state.opts.orientation);
    if let Some(d) = dir {
        let next = find_next(state.items.as_slice(), current, d, state.opts.wrap);
        return KeyOutcome { prevent_default: true, focus: next, typed: false };
    }
    if state.opts.type_ahead && key.unicode_len() == 1 {
        let ch = key.get_char(0);
        if !is_control(ch) {
            if buffer_expired {
                state.type_buffer = String::new();
            }
            crate::text::push_char(&mut state.type_buffer, to_ascii_lower_char(ch));
            let found = find_by_prefix(state.items.as_slice(), current, state.type_buffer.as_str());
            return KeyOutcome { prevent_default: found.is_some(), focus: found, typed: true };
        }
    }
    KeyOutcome { prevent_default: false, focus: None, typed: false }
}

} // verus!

verus! {

/// Stepping back from where a forward step landed returns to the item the
/// step started from, when that item is enabled and the collection wraps.
pub proof fn lemma_backward_undoes_forward(items: Seq<RovingItem>, c: usize, j: usize)
    requires
        c < items.len(),
        enabled_at(items, c as int),
        is_forward_step(items, c as int, true, Some(j)),
    ensures
        is_backward_step(items, j as int, true, Some(c)),
{
    let n = items.len() as int;
    assert(fwd_origin(c as int, n) == c);
    assert(fwd_rank(c as int, j as int, n) <= fwd_rank(c as int, c as int, n));
    assert forall|k: int|
        0 <= k < n && (true || k < j) && #[trigger] enabled_at(items, k) implies bwd_rank(
        j as int,
        c as int,
        n,
    ) <= bwd_rank(j as int, k, n) by {
        assert(fwd_rank(c as int, j as int, n) <= fwd_rank(c as int, k, n));
    }
}

/// Stepping forward from where a backward step landed returns to the item
/// the step started from, when that item is enabled and the collection
/// wraps.
pub proof fn lemma_forward_undoes_backward(items: Seq<RovingItem>, c: usize, j: usize)
    requires
        c < items.len(),
        enabled_at(items, c as int),
        is_backward_step(items, c as int, true, Some(j)),
    ensures
        is_forward_step(items, j as int, true, Some(c)),
{
    let n = items.len() as int;
    assert(fwd_origin(j as int, n) == j);
    assert(bwd_rank(c as int, j as int, n) <= bwd_rank(c as int, c as int, n));
    assert forall|k: int|
        0 <= k < n && (true || k > j) && #[trigger] enabled_at(items, k) implies fwd_rank(
        j as int,
        c as int,
        n,
    ) <= fwd_rank(j as int, k, n) by {
        assert(bwd_rank(c as int, j as int, n) <= bwd_rank(c as int, k, n));
    }
}

} // verus!
