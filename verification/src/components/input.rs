//! Input: a void `<input class="input">` element.
use vstd::prelude::*;

use crate::markup::{
    attrs_text, class_with_extra, flag, flag_text, opt_attr, opt_attr_text, with_extra, AttrMap,
    Markup,
};

verus! {

pub struct InputProps {
    /// The `type` attribute.
    pub input_type: Option<String>,
    pub placeholder: Option<String>,
    pub value: Option<String>,
    pub disabled: bool,
    pub class: Option<String>,
    pub attrs: AttrMap,
}

pub open spec fn input_class_text(p: InputProps) -> Seq<char> {
    with_extra("input"@, p.class)
}

/// `<input class="{classes}"[ type=".."][ placeholder=".."][ value=".."][ disabled]{attrs}>`,
/// the values escaped.
pub open spec fn input_html(p: InputProps) -> Seq<char> {
    "<input class=\""@ + input_class_text(p) + "\""@ + opt_attr_text(" type=\""@, p.input_type)
        + opt_attr_text(" placeholder=\""@, p.placeholder) + opt_attr_text(" value=\""@, p.value)
        + flag_text(p.disabled, " disabled"@) + attrs_text(p.attrs.entries@) + ">"@
}

pub fn input(props: InputProps) -> (r: Markup)
    ensures
        r@ == input_html(props),
{
    let class = class_with_extra("input", &props.class);
    let mut h = String::from_str("<input class=\"");
    h.append(class.as_str());
    h.append("\"");
    let t = opt_attr(" type=\"", &props.input_type);
    h.append(t.as_str());
    let ph = opt_attr(" placeholder=\"", &props.placeholder);
    h.append(ph.as_str());
    let v = opt_attr(" value=\"", &props.value);
    h.append(v.as_str());
    let d = flag(props.disabled, " disabled");
    h.append(d.as_str());
    let attrs = props.attrs.render();
    h.append(attrs.as_str());
    h.append(">");
    Markup::from_string(h)
}

} // verus!
