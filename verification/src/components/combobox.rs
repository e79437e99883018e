//! Combobox markup: a text input with a hidden listbox of option buttons,
//! wired by the combobox controller.
use vstd::prelude::*;

use crate::markup::{
    attrs_text, class_with_extra, flag, flag_text, opt_attr, opt_attr_text, or_default, or_text,
    with_extra, AttrMap, Markup,
};
use crate::text::{attr_escaped, dec, escape_attr, format_u64};

verus! {

pub struct ComboOption {
    pub value: String,
    pub label: String,
}

pub struct ComboboxProps {
    pub id: Option<String>,
    pub name: Option<String>,
    pub placeholder: Option<String>,
    pub value: Option<String>,
    pub disabled: bool,
    pub options: Vec<ComboOption>,
    pub class: Option<String>,
    pub attrs: AttrMap,
}

/// Option number `idx` (from 0) of the combobox with escaped id `eid`.
pub open spec fn option_button(eid: Seq<char>, idx: nat, o: ComboOption) -> Seq<char> {
    "<button type=\"button\" role=\"option\" id=\""@ + eid + "-option-"@ + dec(idx)
        + "\" data-value=\""@ + attr_escaped(o.value@) + "\" tabindex=\"-1\">"@ + attr_escaped(
        o.label@,
    ) + "</button>"@
}

pub open spec fn option_buttons(eid: Seq<char>, opts: Seq<ComboOption>) -> Seq<char>
    decreases opts.len(),
{
    if opts.len() == 0 {
        Seq::empty()
    } else {
        option_buttons(eid, opts.drop_last()) + option_button(
            eid,
            (opts.len() - 1) as nat,
            opts.last(),
        )
    }
}

/// The combobox markup. The id defaults to `combobox-1`; the listbox id is
/// the id followed by `-listbox`.
pub open spec fn combobox_html(p: ComboboxProps) -> Seq<char> {
    let id = or_text(p.id, "combobox-1"@);
    let eid = attr_escaped(id);
    let elist = attr_escaped(id + "-listbox"@);
    "<div class=\""@ + with_extra("select"@, p.class) + "\" id=\""@ + eid
        + "\" data-combobox data-basecoat-hydrate=\"combobox\" data-basecoat-version=\"0.2\""@
        + attrs_text(p.attrs.entries@) + ">"@ + "<input type=\"text\" role=\"combobox\" aria-controls=\""@
        + elist
        + "\" aria-expanded=\"false\" aria-autocomplete=\"list\" autocomplete=\"off\" data-combobox-input"@
        + opt_attr_text(" name=\""@, p.name) + opt_attr_text(" placeholder=\""@, p.placeholder)
        + opt_attr_text(" value=\""@, p.value) + flag_text(p.disabled, " disabled"@) + ">"@
        + "<div role=\"listbox\" id=\""@ + elist + "\" data-combobox-listbox hidden>"@
        + option_buttons(eid, p.options@) + "</div>"@ + "</div>"@
}

fn push_option(h: &mut String, eid: &str, idx: usize, o: &ComboOption)
    ensures
        final(h)@ == old(h)@ + option_button(eid@, idx as nat, *o),
{
    let ghost start = h@;
    let n = format_u64(idx as u64);
    let v = escape_attr(o.value.as_str());
    let l = escape_attr(o.label.as_str());
    h.append("<button type=\"button\" role=\"option\" id=\"");
    h.append(eid);
    h.append("-option-");
    h.append(n.as_str());
    h.append("\" data-value=\"");
    h.append(v.as_str());
    h.append("\" tabindex=\"-1\">");
    h.append(l.as_str());
    h.append("</button>");
    assert(h@ =~= start + option_button(eid@, idx as nat, *o));
}

pub fn combobox(props: ComboboxProps) -> (r: Markup)
    ensures
        r@ == combobox_html(props),
{
    let id = or_default(&props.id, "combobox-1");
    let class = class_with_extra("select", &props.class);
    let attrs = props.attrs.render();
    let mut listbox_id = id.clone();
    listbox_id.append("-listbox");
    let eid = escape_attr(id.as_str());
    let elist = escape_attr(listbox_id.as_str());
    let mut h = String::from_str("<div class=\"");
    h.append(class.as_str());
    h.append("\" id=\"");
    h.append(eid.as_str());
    h.append("\" data-combobox data-basecoat-hydrate=\"combobox\" data-basecoat-version=\"0.2\"");
    h.append(attrs.as_str());
    h.append(">");
    h.append("<input type=\"text\" role=\"combobox\" aria-controls=\"");
    h.append(elist.as_str());
    h.append("\" aria-expanded=\"false\" aria-autocomplete=\"list\" autocomplete=\"off\" data-combobox-input");
    let name = opt_attr(" name=\"", &props.name);
    h.append(name.as_str());
    let ph = opt_attr(" placeholder=\"", &props.placeholder);
    h.append(ph.as_str());
    let val = opt_attr(" value=\"", &props.value);
    h.append(val.as_str());
    let d = flag(props.disabled, " disabled");
    h.append(d.as_str());
    h.append(">");
    h.append("<div role=\"listbox\" id=\"");
    h.append(elist.as_str());
    h.append("\" data-combobox-listbox hidden>");
    let ghost before = h@;
    let mut i: usize = 0;
    while i < props.options.len()
        invariant
            i <= props.options@.len(),
            h@ == before + option_buttons(eid@, props.options@.take(i as int)),
        decreases props.options.len() - i,
    {
        push_option(&mut h, eid.as_str(), i, &props.options[i]);
        assert(props.options@.take(i + 1).drop_last() =~= props.options@.take(i as int));
        assert(h@ =~= before + option_buttons(eid@, props.options@.take(i + 1)));
        i = i + 1;
    }
    assert(props.options@.take(props.options.len() as int) =~= props.options@);
    h.append("</div>");
    h.append("</div>");
    assert(h@ =~= combobox_html(props));
    Markup::from_string(h)
}

} // verus!
