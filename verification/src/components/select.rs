//! Select markup: a hidden native `<select>` (form source of truth), a
//! trigger button showing the selected label, and a floating listbox.
use vstd::prelude::*;

use crate::markup::{
    attrs_text, class_with_extra, flag, flag_text, opt_attr, opt_attr_text, or_default, or_text,
    with_extra, AttrMap, Markup,
};
use crate::text::{attr_escaped, escape_attr, has_substring, occurs_at, str_eq};

verus! {

pub struct SelectOption {
    pub value: String,
    pub label: String,
    pub disabled: bool,
}

pub struct SelectProps {
    pub id: Option<String>,
    /// Selected value; none selects nothing.
    pub value: Option<String>,
    /// Trigger text when no option is selected; `Select an option` when
    /// absent.
    pub placeholder: Option<String>,
    pub name: Option<String>,
    pub disabled: bool,
    /// `aria-label` of the trigger.
    pub label: Option<String>,
    pub options: Vec<SelectOption>,
    pub class: Option<String>,
    pub attrs: AttrMap,
    /// Markup placed in the listbox before the options.
    pub children: String,
}

/// The label shown in the trigger: that of the first option whose value is
/// `selected`, else `fallback`.
pub open spec fn selected_label(opts: Seq<SelectOption>, selected: Seq<char>, fallback: Seq<char>) -> Seq<char>
    decreases opts.len(),
{
    if opts.len() == 0 {
        fallback
    } else if opts[0].value@ == selected {
        opts[0].label@
    } else {
        selected_label(opts.drop_first(), selected, fallback)
    }
}

/// One `<option>` of the native select.
pub open spec fn native_option(o: SelectOption, selected: Seq<char>) -> Seq<char> {
    "<option value=\""@ + attr_escaped(o.value@) + "\""@ + flag_text(o.value@ == selected, " selected"@)
        + flag_text(o.disabled, " disabled"@) + ">"@ + attr_escaped(o.label@) + "</option>"@
}

/// One option button of the listbox: the selected one is
/// `aria-selected="true"` and in the tab sequence.
pub open spec fn listbox_option(o: SelectOption, selected: Seq<char>) -> Seq<char> {
    let is_sel = o.value@ == selected;
    "<button type=\"button\" role=\"option\" data-value=\""@ + attr_escaped(o.value@)
        + "\" aria-selected=\""@ + (if is_sel {
        "true"@
    } else {
        "false"@
    }) + "\" tabindex=\""@ + (if is_sel {
        "0"@
    } else {
        "-1"@
    }) + "\""@ + flag_text(o.disabled, " aria-disabled=\"true\" disabled"@) + ">"@ + attr_escaped(
        o.label@,
    ) + "</button>"@
}

pub open spec fn native_options(opts: Seq<SelectOption>, selected: Seq<char>) -> Seq<char>
    decreases opts.len(),
{
    if opts.len() == 0 {
        Seq::empty()
    } else {
        native_options(opts.drop_last(), selected) + native_option(opts.last(), selected)
    }
}

pub open spec fn listbox_options(opts: Seq<SelectOption>, selected: Seq<char>) -> Seq<char>
    decreases opts.len(),
{
    if opts.len() == 0 {
        Seq::empty()
    } else {
        listbox_options(opts.drop_last(), selected) + listbox_option(opts.last(), selected)
    }
}

/// The select markup. The id defaults to `select-1`; the wrapper, native
/// select and listbox ids append `-root`, `-native` and `-listbox`.
pub open spec fn select_html(p: SelectProps) -> Seq<char> {
    let id = or_text(p.id, "select-1"@);
    let eid = attr_escaped(id);
    let sel = or_text(p.value, Seq::empty());
    let label = selected_label(p.options@, sel, or_text(p.placeholder, "Select an option"@));
    let elist = attr_escaped(id + "-listbox"@);
    "<div class=\""@ + with_extra("select"@, p.class) + "\" id=\""@ + attr_escaped(id + "-root"@)
        + "\" data-basecoat-hydrate=\"select\" data-basecoat-version=\"0.2\""@ + attrs_text(
        p.attrs.entries@,
    ) + ">"@ + "<select class=\"select-native\" hidden"@ + opt_attr_text(" name=\""@, p.name)
        + flag_text(p.disabled, " disabled"@) + " id=\""@ + attr_escaped(id + "-native"@)
        + "\" data-select-native>"@ + native_options(p.options@, sel) + "</select>"@
        + "<button type=\"button\" class=\"select-trigger\" id=\""@ + eid
        + "\" data-select-trigger aria-haspopup=\"listbox\" aria-expanded=\"false\" aria-controls=\""@
        + elist + "\""@ + opt_attr_text(" aria-label=\""@, p.label) + flag_text(
        p.disabled,
        " disabled"@,
    ) + ">"@ + "<span data-select-value>"@ + attr_escaped(label) + "</span>"@ + "</button>"@
        + "<div id=\""@ + elist
        + "\" role=\"listbox\" data-select-listbox tabindex=\"-1\" hidden aria-labelledby=\""@ + eid
        + "\">"@ + p.children@ + listbox_options(p.options@, sel) + "</div></div>"@
}

fn find_label(opts: &Vec<SelectOption>, selected: &str, fallback: &str) -> (r: String)
    ensures
        r@ == selected_label(opts@, selected@, fallback@),
{
    let mut i: usize = 0;
    assert(opts@.skip(0) =~= opts@);
    while i < opts.len()
        invariant
            i <= opts@.len(),
            selected_label(opts@, selected@, fallback@) == selected_label(
                opts@.skip(i as int),
                selected@,
                fallback@,
            ),
        decreases opts.len() - i,
    {
        assert(opts@.skip(i as int).drop_first() =~= opts@.skip(i + 1));
        assert(opts@.skip(i as int)[0] == opts@[i as int]);
        if str_eq(opts[i].value.as_str(), selected) {
            return opts[i].label.clone();
        }
        i = i + 1;
    }
    assert(opts@.skip(opts.len() as int) =~= Seq::<SelectOption>::empty());
    String::from_str(fallback)
}

fn push_native_option(h: &mut String, o: &SelectOption, selected: &str)
    ensures
        final(h)@ == old(h)@ + native_option(*o, selected@),
{
    let ghost start = h@;
    let same = str_eq(o.value.as_str(), selected);
    let v = escape_attr(o.value.as_str());
    let l = escape_attr(o.label.as_str());
    let s = flag(same, " selected");
    let d = flag(o.disabled, " disabled");
    h.append("<option value=\"");
    h.append(v.as_str());
    h.append("\"");
    h.append(s.as_str());
    h.append(d.as_str());
    h.append(">");
    h.append(l.as_str());
    h.append("</option>");
    assert(h@ =~= start + native_option(*o, selected@));
}

fn push_listbox_option(h: &mut String, o: &SelectOption, selected: &str)
    ensures
        final(h)@ == old(h)@ + listbox_option(*o, selected@),
{
    let ghost start = h@;
    let same = str_eq(o.value.as_str(), selected);
    let v = escape_attr(o.value.as_str());
    let l = escape_attr(o.label.as_str());
    let d = flag(o.disabled, " aria-disabled=\"true\" disabled");
    h.append("<button type=\"button\" role=\"option\" data-value=\"");
    h.append(v.as_str());
    h.append("\" aria-selected=\"");
    h.append(if same {
        "true"
    } else {
        "false"
    });
    h.append("\" tabindex=\"");
    h.append(if same {
        "0"
    } else {
        "-1"
    });
    h.append("\"");
    h.append(d.as_str());
    h.append(">");
    h.append(l.as_str());
    h.append("</button>");
    assert(h@ =~= start + listbox_option(*o, selected@));
}

fn suffixed(id: &String, suffix: &str) -> (r: String)
    ensures
        r@ == attr_escaped(id@ + suffix@),
{
    let mut s = id.clone();
    s.append(suffix);
    escape_attr(s.as_str())
}

pub fn select(props: SelectProps) -> (r: Markup)
    ensures
        r@ == select_html(props),
{
    let id = or_default(&props.id, "select-1");
    let class = class_with_extra("select", &props.class);
    let wrapper_attrs = props.attrs.render();
    let selected = or_default(&props.value, "");
    proof {
        reveal_strlit("");
        assert(""@ =~= Seq::<char>::empty());
    }
    let placeholder = or_default(&props.placeholder, "Select an option");
    let label = find_label(&props.options, selected.as_str(), placeholder.as_str());
    let name_attr = opt_attr(" name=\"", &props.name);
    let disabled = flag(props.disabled, " disabled");
    let aria_label = opt_attr(" aria-label=\"", &props.label);
    let eid = escape_attr(id.as_str());
    let elist = suffixed(&id, "-listbox");
    let mut h = String::from_str("<div class=\"");
    h.append(class.as_str());
    h.append("\" id=\"");
    let root = suffixed(&id, "-root");
    h.append(root.as_str());
    h.append("\" data-basecoat-hydrate=\"select\" data-basecoat-version=\"0.2\"");
    h.append(wrapper_attrs.as_str());
    h.append(">");
    h.append("<select class=\"select-native\" hidden");
    h.append(name_attr.as_str());
    h.append(disabled.as_str());
    h.append(" id=\"");
    let native = suffixed(&id, "-native");
    h.append(native.as_str());
    h.append("\" data-select-native>");
    let ghost b1 = h@;
    let mut i: usize = 0;
    while i < props.options.len()
        invariant
            i <= props.options@.len(),
            h@ == b1 + native_options(props.options@.take(i as int), selected@),
        decreases props.options.len() - i,
    {
        push_native_option(&mut h, &props.options[i], selected.as_str());
        assert(props.options@.take(i + 1).drop_last() =~= props.options@.take(i as int));
        assert(h@ =~= b1 + native_options(props.options@.take(i + 1), selected@));
        i = i + 1;
    }
    assert(props.options@.take(props.options.len() as int) =~= props.options@);
    h.append("</select>");
    h.append("<button type=\"button\" class=\"select-trigger\" id=\"");
    h.append(eid.as_str());
    h.append("\" data-select-trigger aria-haspopup=\"listbox\" aria-expanded=\"false\" aria-controls=\"");
    h.append(elist.as_str());
    h.append("\"");
    h.append(aria_label.as_str());
    h.append(disabled.as_str());
    h.append(">");
    h.append("<span data-select-value>");
    let el = escape_attr(label.as_str());
    h.append(el.as_str());
    h.append("</span>");
    h.append("</button>");
    h.append("<div id=\"");
    h.append(elist.as_str());
    h.append("\" role=\"listbox\" data-select-listbox tabindex=\"-1\" hidden aria-labelledby=\"");
    h.append(eid.as_str());
    h.append("\">");
    h.append(props.children.as_str());
    let ghost b2 = h@;
    let mut j: usize = 0;
    while j < props.options.len()
        invariant
            j <= props.options@.len(),
            h@ == b2 + listbox_options(props.options@.take(j as int), selected@),
        decreases props.options.len() - j,
    {
        push_listbox_option(&mut h, &props.options[j], selected.as_str());
        assert(props.options@.take(j + 1).drop_last() =~= props.options@.take(j as int));
        assert(h@ =~= b2 + listbox_options(props.options@.take(j + 1), selected@));
        j = j + 1;
    }
    h.append("</div></div>");
    assert(h@ =~= select_html(props));
    Markup::from_string(h)
}

} // verus!

verus! {

/// With no option of value `selected`, the label is the fallback.
proof fn lemma_selected_label_none(opts: Seq<SelectOption>, selected: Seq<char>, fallback: Seq<char>)
    requires
        forall|k: int| 0 <= k < opts.len() ==> (#[trigger] opts[k]).value@ != selected,
    ensures
        selected_label(opts, selected, fallback) == fallback,
    decreases opts.len(),
{
    if opts.len() > 0 {
        let rest = opts.drop_first();
        assert forall|k: int| 0 <= k < rest.len() implies (#[trigger] rest[k]).value@ != selected by {
            assert(rest[k] == opts[k + 1]);
        }
        lemma_selected_label_none(rest, selected, fallback);
    }
}

/// The label is that of the first option of value `selected`.
proof fn lemma_selected_label_first(
    opts: Seq<SelectOption>,
    selected: Seq<char>,
    fallback: Seq<char>,
    i: int,
)
    requires
        0 <= i < opts.len(),
        opts[i].value@ == selected,
        forall|k: int| 0 <= k < i ==> (#[trigger] opts[k]).value@ != selected,
    ensures
        selected_label(opts, selected, fallback) == opts[i].label@,
    decreases opts.len(),
{
    if i > 0 {
        let rest = opts.drop_first();
        assert forall|k: int| 0 <= k < i - 1 implies (#[trigger] rest[k]).value@ != selected by {
            assert(rest[k] == opts[k + 1]);
        }
        assert(rest[i - 1] == opts[i]);
        lemma_selected_label_first(rest, selected, fallback, i - 1);
    }
}

/// The trigger's value span holds `label`, escaped.
proof fn lemma_select_span(p: SelectProps)
    ensures
        has_substring(
            select_html(p),
            "<span data-select-value>"@ + attr_escaped(
                selected_label(
                    p.options@,
                    or_text(p.value, Seq::empty()),
                    or_text(p.placeholder, "Select an option"@),
                ),
            ) + "</span>"@,
        ),
{
    let id = or_text(p.id, "select-1"@);
    let eid = attr_escaped(id);
    let sel = or_text(p.value, Seq::empty());
    let shown = selected_label(p.options@, sel, or_text(p.placeholder, "Select an option"@));
    let elist = attr_escaped(id + "-listbox"@);
    let pre = "<div class=\""@ + with_extra("select"@, p.class) + "\" id=\""@ + attr_escaped(
        id + "-root"@,
    ) + "\" data-basecoat-hydrate=\"select\" data-basecoat-version=\"0.2\""@ + attrs_text(
        p.attrs.entries@,
    ) + ">"@ + "<select class=\"select-native\" hidden"@ + opt_attr_text(" name=\""@, p.name)
        + flag_text(p.disabled, " disabled"@) + " id=\""@ + attr_escaped(id + "-native"@)
        + "\" data-select-native>"@ + native_options(p.options@, sel) + "</select>"@
        + "<button type=\"button\" class=\"select-trigger\" id=\""@ + eid
        + "\" data-select-trigger aria-haspopup=\"listbox\" aria-expanded=\"false\" aria-controls=\""@
        + elist + "\""@ + opt_attr_text(" aria-label=\""@, p.label) + flag_text(
        p.disabled,
        " disabled"@,
    ) + ">"@;
    let mid = "<span data-select-value>"@ + attr_escaped(shown) + "</span>"@;
    let rest = "</button>"@ + "<div id=\""@ + elist
        + "\" role=\"listbox\" data-select-listbox tabindex=\"-1\" hidden aria-labelledby=\""@ + eid
        + "\">"@ + p.children@ + listbox_options(p.options@, sel) + "</div></div>"@;
    let h = select_html(p);
    assert(h =~= pre + mid + rest);
    assert(h.subrange(pre.len() as int, pre.len() as int + mid.len() as int) =~= mid);
    assert(occurs_at(h, mid, pre.len() as int));
}

/// When no option has the selected value, the trigger shows the
/// placeholder, escaped, or `Select an option` when there is none.
pub proof fn lemma_select_shows_placeholder(p: SelectProps)
    requires
        forall|k: int|
            0 <= k < p.options@.len() ==> (#[trigger] p.options@[k]).value@ != or_text(
                p.value,
                Seq::empty(),
            ),
    ensures
        has_substring(
            select_html(p),
            "<span data-select-value>"@ + attr_escaped(
                match p.placeholder {
                    Some(ph) => ph@,
                    None => "Select an option"@,
                },
            ) + "</span>"@,
        ),
{
    lemma_select_span(p);
    lemma_selected_label_none(
        p.options@,
        or_text(p.value, Seq::empty()),
        or_text(p.placeholder, "Select an option"@),
    );
}

/// When option `i` is the first with the selected value, the trigger shows
/// its label, escaped.
pub proof fn lemma_select_shows_selected_label(p: SelectProps, i: int)
    requires
        0 <= i < p.options@.len(),
        p.options@[i].value@ == or_text(p.value, Seq::empty()),
        forall|k: int|
            0 <= k < i ==> (#[trigger] p.options@[k]).value@ != or_text(p.value, Seq::empty()),
    ensures
        has_substring(
            select_html(p),
            "<span data-select-value>"@ + attr_escaped(p.options@[i].label@) + "</span>"@,
        ),
{
    lemma_select_span(p);
    lemma_selected_label_first(
        p.options@,
        or_text(p.value, Seq::empty()),
        or_text(p.placeholder, "Select an option"@),
        i,
    );
}

} // verus!

