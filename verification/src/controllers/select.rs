//! Select: a hidden native `<select>` (the form's source of truth), a
//! trigger button showing the selected label and a floating listbox of
//! option buttons.
use vstd::prelude::*;

use crate::text::{
    ascii_lower, attr_equals, attr_is, dec, dec_signed, find_char, first_index_of, format_i64,
    lacks, lemma_dec_lacks, lemma_first_index_of, lemma_last_index_of_absent,
    lemma_split_concat, lemma_split_pieces_lack, lemma_split_prefix, lemma_trim_fixed,
    lemma_trim_lacks, lemma_trim_space_prefix, lemma_trim_trim, last_index_of,
    lemma_last_index_of_bounds, push_chars, split_on, str_eq, to_ascii_lowercase,
    trim, trim_range,
};

verus! {

/// What the controller reads of one option button.
pub struct SelectItem {
    /// Value of `data-value`.
    pub value: Option<String>,
    /// Text content.
    pub text: String,
    /// The button's `disabled` property.
    pub disabled: bool,
    /// Value of `aria-disabled`.
    pub aria_disabled: Option<String>,
    /// Value of `aria-selected`.
    pub aria_selected: Option<String>,
}

/// An option is disabled when its `disabled` property is set or it carries
/// `aria-disabled="true"`.
pub open spec fn item_disabled(item: SelectItem) -> bool {
    item.disabled || attr_is(item.aria_disabled, "true"@)
}

pub fn is_disabled(item: &SelectItem) -> (r: bool)
    ensures
        r == item_disabled(*item),
{
    if item.disabled {
        return true;
    }
    attr_equals(&item.aria_disabled, "true")
}

/// The value an option stands for: its `data-value`, or the empty string.
pub open spec fn item_value(item: SelectItem) -> Seq<char> {
    match item.value {
        Some(v) => v@,
        None => Seq::empty(),
    }
}

/// The label shown for the native value `value`: the text of the first
/// option whose `data-value` equals it, or none (the trigger keeps its
/// current label).
pub open spec fn is_label_for(items: Seq<SelectItem>, value: Seq<char>, r: Option<String>) -> bool {
    match r {
        Some(t) => exists|i: int|
            0 <= i < items.len() && attr_is(#[trigger] items[i].value, value) && t@
                == items[i].text@ && forall|k: int|
                0 <= k < i ==> !attr_is(#[trigger] items[k].value, value),
        None => forall|k: int| 0 <= k < items.len() ==> !attr_is(#[trigger] items[k].value, value),
    }
}

pub fn trigger_label(items: &[SelectItem], value: &str) -> (r: Option<String>)
    ensures
        is_label_for(items@, value@, r),
{
    let mut i: usize = 0;
    while i < items.len()
        invariant
            i <= items@.len(),
            forall|k: int| 0 <= k < i ==> !attr_is(#[trigger] items@[k].value, value@),
        decreases items.len() - i,
    {
        if attr_equals(&items[i].value, value) {
            return Some(items[i].text.clone());
        }
        i = i + 1;
    }
    None
}

/// The option that takes focus when the listbox opens: the first
/// `aria-selected="true"` option, else the first option that is not
/// disabled, else none.
pub open spec fn is_initial_focus(items: Seq<SelectItem>, r: Option<usize>) -> bool {
    if exists|i: int| 0 <= i < items.len() && attr_is(#[trigger] items[i].aria_selected, "true"@) {
        r is Some && r->0 < items.len() && attr_is(items[r->0 as int].aria_selected, "true"@)
            && forall|k: int| 0 <= k < r->0 ==> !attr_is(#[trigger] items[k].aria_selected, "true"@)
    } else {
        match r {
            Some(j) => j < items.len() && !item_disabled(items[j as int]) && forall|k: int|
                0 <= k < j ==> item_disabled(#[trigger] items[k]),
            None => forall|k: int| 0 <= k < items.len() ==> item_disabled(#[trigger] items[k]),
        }
    }
}

pub fn focus_initial(items: &[SelectItem]) -> (r: Option<usize>)
    ensures
        is_initial_focus(items@, r),
{
    let mut i: usize = 0;
    while i < items.len()
        invariant
            i <= items@.len(),
            forall|k: int| 0 <= k < i ==> !attr_is(#[trigger] items@[k].aria_selected, "true"@),
        decreases items.len() - i,
    {
        if attr_equals(&items[i].aria_selected, "true") {
            return Some(i);
        }
        i = i + 1;
    }
    let mut j: usize = 0;
    while j < items.len()
        invariant
            j <= items@.len(),
            forall|k: int| 0 <= k < items@.len() ==> !attr_is(#[trigger] items@[k].aria_selected, "true"@),
            forall|k: int| 0 <= k < j ==> item_disabled(#[trigger] items@[k]),
        decreases items.len() - j,
    {
        if !is_disabled(&items[j]) {
            return Some(j);
        }
        j = j + 1;
    }
    None
}

/// `aria-selected` of every option after `value` is chosen: `true` exactly
/// for the options whose value (`data-value`, or empty) equals it.
pub fn selection_flags(items: &[SelectItem], value: &str) -> (r: Vec<bool>)
    ensures
        r@.len() == items@.len(),
        forall|i: int| 0 <= i < items@.len() ==> #[trigger] r@[i] == (item_value(items@[i]) == value@),
{
    let mut out: Vec<bool> = Vec::new();
    let mut i: usize = 0;
    while i < items.len()
        invariant
            i <= items@.len(),
            out@.len() == i,
            forall|k: int| 0 <= k < i ==> #[trigger] out@[k] == (item_value(items@[k]) == value@),
        decreases items.len() - i,
    {
        let same = match &items[i].value {
            Some(v) => str_eq(v.as_str(), value),
            None => value.unicode_len() == 0,
        };
        proof {
            if items@[i as int].value is None && value@.len() == 0 {
                assert(value@ =~= Seq::<char>::empty());
            }
        }
        out.push(same);
        i = i + 1;
    }
    out
}

/// Whether the listbox is shown.
pub struct SelectState {
    pub open: bool,
}

/// Opening / closing the listbox.
#[derive(Clone, Copy, Debug, PartialEq, Eq, Structural)]
pub enum Toggle {
    Open,
    Close,
}

/// A trigger click closes an open listbox and opens a closed one.
pub fn toggle(state: &mut SelectState) -> (r: Toggle)
    ensures
        final(state).open == !old(state).open,
        r == (if old(state).open {
            Toggle::Close
        } else {
            Toggle::Open
        }),
{
    if state.open {
        state.open = false;
        Toggle::Close
    } else {
        state.open = true;
        Toggle::Open
    }
}

/// Opens the listbox; `false` (nothing to do) when it is already open.
pub fn open(state: &mut SelectState) -> (opened: bool)
    ensures
        opened == !old(state).open,
        final(state).open,
{
    if state.open {
        return false;
    }
    state.open = true;
    true
}

/// Closes the listbox; `false` (nothing to do) when it is already closed.
pub fn close(state: &mut SelectState) -> (closed: bool)
    ensures
        closed == old(state).open,
        !final(state).open,
{
    if !state.open {
        return false;
    }
    state.open = false;
    true
}

// ---------------------------------------------------------------------------
// Inline style
// ---------------------------------------------------------------------------

/// Property name of a `name: value` declaration: the text before the first
/// `:`, trimmed, in ASCII lower case.
pub open spec fn decl_key(t: Seq<char>) -> Seq<char> {
    let j = first_index_of(t, ':');
    ascii_lower(
        trim(
            if j < 0 {
                t
            } else {
                t.take(j)
            },
        ),
    )
}

/// What a piece of the old style contributes: nothing when it is blank or
/// sets `min-width`, otherwise the trimmed declaration followed by `"; "`.
pub open spec fn kept_decl(piece: Seq<char>) -> Seq<char> {
    let t = trim(piece);
    if t.len() == 0 || decl_key(t) == "min-width"@ {
        Seq::empty()
    } else {
        t + "; "@
    }
}

/// The kept declarations of all pieces, in order.
pub open spec fn kept_decls(pieces: Seq<Seq<char>>) -> Seq<char>
    decreases pieces.len(),
{
    if pieces.len() == 0 {
        Seq::empty()
    } else {
        kept_decls(pieces.drop_last()) + kept_decl(pieces.last())
    }
}

/// The style after merging: the declarations of `existing` (split on `;`)
/// other than `min-width`, then `min-width: {width}px;`.
pub open spec fn merged_style(existing: Seq<char>, width: int) -> Seq<char> {
    kept_decls(split_on(existing, ';')) + "min-width: "@ + dec_signed(width) + "px;"@
}

/// Appends the kept form of the piece `v[a..b]`.
fn push_kept_decl(out: &mut String, v: &Vec<char>, a: usize, b: usize)
    requires
        a <= b <= v.len(),
    ensures
        final(out)@ == old(out)@ + kept_decl(v@.subrange(a as int, b as int)),
{
    let (x, y) = trim_range(v, a, b);
    let ghost t = v@.subrange(x as int, y as int);
    if x == y {
        assert(t.len() == 0);
        assert(old(out)@ + Seq::<char>::empty() =~= old(out)@);
        return;
    }
    let colon = find_char(v, x, y, ':');
    proof {
        assert forall|k: int| 0 <= k < colon - x implies t[k] != ':' by {
            assert(t[k] == v@[k + x]);
        }
        if colon < y {
            assert(t[colon - x] == v@[colon as int]);
        }
        lemma_first_index_of(t, ':', colon - x);
        if colon < y {
            assert(t.take(colon - x) =~= v@.subrange(x as int, colon as int));
        } else {
            assert(t =~= v@.subrange(x as int, colon as int));
        }
    }
    let (kx, ky) = trim_range(v, x, colon);
    let mut key_raw = String::new();
    push_chars(&mut key_raw, v, kx, ky);
    assert(key_raw@ =~= v@.subrange(kx as int, ky as int));
    let key = to_ascii_lowercase(key_raw.as_str());
    if str_eq(key.as_str(), "min-width") {
        assert(old(out)@ + Seq::<char>::empty() =~= old(out)@);
        return;
    }
    push_chars(out, v, x, y);
    out.append("; ");
    assert(old(out)@ + t + "; "@ =~= old(out)@ + (t + "; "@));
}

/// Merges `min-width: {width}px;` into the inline style `existing`,
/// dropping any earlier `min-width` so that repeated opens do not pile up
/// stale values; the other declarations are kept in order, each trimmed
/// and followed by `"; "`.
pub fn merge_min_width(existing: &str, width: i32) -> (r: String)
    ensures
        r@ == merged_style(existing@, width as int),
{
    let v = crate::text::chars_of(existing);
    let n = v.len();
    let mut out = String::new();
    let mut start: usize = 0;
    let mut i: usize = 0;
    loop
        invariant_except_break
            out@ == (if start == 0 {
                Seq::<char>::empty()
            } else {
                kept_decls(split_on(existing@.take(start - 1), ';'))
            }),
        invariant
            v@ == existing@,
            n == v.len(),
            start <= i <= n,
            start == 0 || v@[start - 1] == ';',
            forall|k: int| start <= k < i ==> v@[k] != ';',
            start == 0 ==> forall|k: int| 0 <= k < i ==> v@[k] != ';',
        ensures
            out@ == kept_decls(split_on(existing@, ';')),
        decreases n - i, n - start,
    {
        if i == n || v[i] == ';' {
            let ghost before = out@;
            push_kept_decl(&mut out, &v, start, i);
            proof {
                lemma_split_prefix(existing@, ';', start as int, i as int);
                let pieces = split_on(existing@.take(i as int), ';');
                assert(pieces.drop_last() =~= (if start == 0 {
                    Seq::<Seq<char>>::empty()
                } else {
                    split_on(existing@.take(start - 1), ';')
                }));
                assert(pieces.last() == existing@.subrange(start as int, i as int));
                if start == 0 {
                    assert(kept_decls(Seq::<Seq<char>>::empty()) == Seq::<char>::empty());
                }
            }
            if i == n {
                assert(existing@.take(n as int) =~= existing@);
                break;
            }
            start = i + 1;
            i = i + 1;
            assert(existing@.take(start - 1) == existing@.take((start - 1) as int));
        } else {
            i = i + 1;
        }
    }
    out.append("min-width: ");
    let w = format_i64(width as i64);
    out.append(w.as_str());
    out.append("px;");
    out
}


/// The text of an optional attribute, or the empty string.
pub open spec fn attr_text(v: Option<String>) -> Seq<char> {
    match v {
        Some(t) => t@,
        None => Seq::empty(),
    }
}

/// What the page does when the listbox opens.
pub struct OpenPlan {
    /// The listbox's new `style`, when the trigger has a width to match.
    pub style: Option<String>,
    /// The option that takes focus.
    pub focus: Option<usize>,
}

/// Opens the listbox of a select whose trigger is `trigger_width` pixels
/// wide, whose listbox has the inline `style` and whose options are
/// `items`. When it is already open nothing changes and the answer is
/// `None`. Otherwise it is marked open, and the plan gives the listbox
/// style with `min-width` set to the trigger width (kept as it is when the
/// width is not positive) and the option to focus: the selected one, else
/// the first enabled one.
pub fn plan_open(
    state: &mut SelectState,
    trigger_width: i32,
    style: &Option<String>,
    items: &[SelectItem],
) -> (r: Option<OpenPlan>)
    ensures
        final(state).open,
        old(state).open ==> r is None,
        !old(state).open ==> (r matches Some(p) && (if trigger_width > 0 {
            p.style matches Some(st) && st@ == merged_style(attr_text(*style), trigger_width as int)
        } else {
            p.style is None
        }) && is_initial_focus(items@, p.focus)),
{
    if !open(state) {
        return None;
    }
    let new_style = if trigger_width > 0 {
        let existing: &str = match style {
            Some(st) => st.as_str(),
            None => "",
        };
        proof {
            reveal_strlit("");
            assert(existing@ =~= attr_text(*style));
        }
        Some(merge_min_width(existing, trigger_width))
    } else {
        None
    };
    Some(OpenPlan { style: new_style, focus: focus_initial(items) })
}

} // verus!

verus! {

/// The kept declarations of two runs of pieces are those of each, in order.
proof fn lemma_kept_decls_concat(p: Seq<Seq<char>>, q: Seq<Seq<char>>)
    ensures
        kept_decls(p + q) == kept_decls(p) + kept_decls(q),
    decreases q.len(),
{
    if q.len() == 0 {
        assert(p + q =~= p);
        assert(kept_decls(p) + Seq::<char>::empty() =~= kept_decls(p));
    } else {
        assert((p + q).drop_last() =~= p + q.drop_last());
        assert((p + q).last() == q.last());
        lemma_kept_decls_concat(p, q.drop_last());
        assert(kept_decls(p) + kept_decls(q.drop_last()) + kept_decl(q.last()) =~= kept_decls(p)
            + (kept_decls(q.drop_last()) + kept_decl(q.last())));
    }
}

/// The kept declarations of a single piece.
proof fn lemma_kept_decls_single(t: Seq<char>)
    ensures
        kept_decls(seq![t]) == kept_decl(t),
{
    let one = seq![t];
    assert(one.drop_last() =~= Seq::<Seq<char>>::empty());
    assert(one.last() == t);
    assert(kept_decls(Seq::<Seq<char>>::empty()) == Seq::<char>::empty());
    assert(kept_decls(one) == kept_decls(one.drop_last()) + kept_decl(one.last()));
    assert(Seq::<char>::empty() + kept_decl(t) =~= kept_decl(t));
}

/// A space before a style changes none of its kept declarations.
proof fn lemma_kept_decls_space(z: Seq<char>)
    ensures
        kept_decls(split_on(seq![' '] + z, ';')) == kept_decls(split_on(z, ';')),
    decreases z.len(),
{
    let sz = seq![' '] + z;
    lemma_last_index_of_bounds(z, ';');
    let j = last_index_of(z, ';');
    if j < 0 {
        assert(lacks(z, ';'));
        assert forall|k: int| 0 <= k < sz.len() implies sz[k] != ';' by {
            if k > 0 {
                assert(sz[k] == z[k - 1]);
            }
        }
        lemma_last_index_of_absent(sz, ';');
        lemma_trim_space_prefix(z);
        lemma_kept_decls_single(sz);
        lemma_kept_decls_single(z);
    } else {
        let head = z.take(j);
        let rest = z.skip(j + 1);
        assert(z =~= head + seq![';'] + rest);
        assert(sz =~= (seq![' '] + head) + seq![';'] + rest);
        lemma_split_concat(head, rest, ';');
        lemma_split_concat(seq![' '] + head, rest, ';');
        lemma_kept_decls_concat(split_on(head, ';'), split_on(rest, ';'));
        lemma_kept_decls_concat(split_on(seq![' '] + head, ';'), split_on(rest, ';'));
        lemma_kept_decls_space(head);
    }
}

/// Splitting kept declarations followed by `z` gives them back, followed by
/// what `z` keeps.
proof fn lemma_kept_decls_resplit(pieces: Seq<Seq<char>>, z: Seq<char>)
    requires
        forall|i: int| 0 <= i < pieces.len() ==> lacks(#[trigger] pieces[i], ';'),
    ensures
        kept_decls(split_on(kept_decls(pieces) + z, ';')) == kept_decls(pieces) + kept_decls(
            split_on(z, ';'),
        ),
    decreases pieces.len(),
{
    if pieces.len() == 0 {
        assert(Seq::<char>::empty() + z =~= z);
        assert(Seq::<char>::empty() + kept_decls(split_on(z, ';')) =~= kept_decls(
            split_on(z, ';'),
        ));
    } else {
        let init = pieces.drop_last();
        let last = pieces.last();
        assert forall|i: int| 0 <= i < init.len() implies lacks(#[trigger] init[i], ';') by {
            assert(init[i] == pieces[i]);
        }
        let k0 = kept_decls(init);
        let t = trim(last);
        if kept_decl(last).len() == 0 {
            assert(kept_decls(pieces) =~= k0);
            lemma_kept_decls_resplit(init, z);
        } else {
            reveal_strlit("; ");
            assert(kept_decl(last) == t + "; "@);
            assert(kept_decls(pieces) + z =~= (k0 + t) + seq![';'] + (seq![' '] + z));
            lemma_split_concat(k0 + t, seq![' '] + z, ';');
            lemma_kept_decls_concat(split_on(k0 + t, ';'), split_on(seq![' '] + z, ';'));
            lemma_kept_decls_resplit(init, t);
            lemma_trim_lacks(last, ';');
            lemma_last_index_of_absent(t, ';');
            lemma_trim_trim(last);
            lemma_kept_decls_single(t);
            assert(kept_decl(t) == t + "; "@);
            lemma_kept_decls_space(z);
            assert(k0 + (t + "; "@) + kept_decls(split_on(z, ';')) =~= kept_decls(pieces)
                + kept_decls(split_on(z, ';')));
            assert(k0 + kept_decls(split_on(t, ';')) + kept_decls(split_on(z, ';')) =~= k0 + (t
                + "; "@) + kept_decls(split_on(z, ';')));
        }
    }
}

/// The declaration appended by a merge is dropped by the next one.
proof fn lemma_min_width_dropped(width: int)
    ensures
        kept_decls(split_on("min-width: "@ + dec_signed(width) + "px;"@, ';'))
            == Seq::<char>::empty(),
{
    reveal_strlit("min-width: ");
    reveal_strlit("px;");
    reveal_strlit("min-width");
    let d = dec_signed(width);
    let head = "min-width: "@ + d + seq!['p', 'x'];
    assert("min-width: "@ + d + "px;"@ =~= head + seq![';'] + Seq::<char>::empty());
    if width < 0 {
        lemma_dec_lacks((-width) as nat, ';');
        assert forall|k: int| 0 <= k < d.len() implies d[k] != ';' by {
            if k > 0 {
                assert(d[k] == dec((-width) as nat)[k - 1]);
            }
        }
    } else {
        lemma_dec_lacks(width as nat, ';');
    }
    assert forall|k: int| 0 <= k < head.len() implies head[k] != ';' by {
        if 11 <= k < 11 + d.len() {
            assert(head[k] == d[k - 11]);
        }
    }
    lemma_split_concat(head, Seq::<char>::empty(), ';');
    lemma_last_index_of_absent(head, ';');
    lemma_last_index_of_absent(Seq::<char>::empty(), ';');
    assert(split_on(head + seq![';'] + Seq::<char>::empty(), ';') =~= seq![head]
        + seq![Seq::<char>::empty()]);
    assert(seq![head] + seq![Seq::<char>::empty()] =~= seq![head, Seq::<char>::empty()]);
    let pieces = seq![head, Seq::<char>::empty()];
    assert(pieces.drop_last() =~= seq![head]);
    lemma_kept_decls_single(head);
    lemma_trim_fixed(head);
    lemma_first_index_of(head, ':', 9);
    let name = head.take(9);
    assert(name =~= "min-width"@);
    lemma_trim_fixed(name);
    assert(ascii_lower(name) =~= name);
    assert(kept_decl(head) == Seq::<char>::empty());
    assert(kept_decl(Seq::<char>::empty()) == Seq::<char>::empty());
}

/// Merging twice keeps only the last width: `merge_min_width` applied to
/// its own output with a new width gives what merging the starting style
/// with that width gives, so repeated opens never pile up `min-width`
/// declarations.
pub proof fn lemma_merge_min_width_idempotent(existing: Seq<char>, first: int, second: int)
    ensures
        merged_style(merged_style(existing, first), second) == merged_style(existing, second),
{
    let pieces = split_on(existing, ';');
    lemma_split_pieces_lack(existing, ';');
    let tail = "min-width: "@ + dec_signed(first) + "px;"@;
    assert(merged_style(existing, first) =~= kept_decls(pieces) + tail);
    lemma_kept_decls_resplit(pieces, tail);
    lemma_min_width_dropped(first);
    assert(kept_decls(pieces) + Seq::<char>::empty() =~= kept_decls(pieces));
}

} // verus!
