//! Textarea: `<textarea class="textarea"></textarea>`.
use vstd::prelude::*;

use crate::markup::{
    attrs_text, class_with_extra, flag, flag_text, opt_attr, opt_attr_text, with_extra, AttrMap,
    Markup,
};

verus! {

pub struct TextareaProps {
    pub placeholder: Option<String>,
    pub disabled: bool,
    pub class: Option<String>,
    pub attrs: AttrMap,
}

/// `<textarea class="{classes}"[ placeholder=".."][ disabled]{attrs}></textarea>`.
pub open spec fn textarea_html(p: TextareaProps) -> Seq<char> {
    "<textarea class=\""@ + with_extra("textarea"@, p.class) + "\""@ + opt_attr_text(
        " placeholder=\""@,
        p.placeholder,
    ) + flag_text(p.disabled, " disabled"@) + attrs_text(p.attrs.entries@) + "></textarea>"@
}

pub fn textarea(props: TextareaProps) -> (r: Markup)
    ensures
        r@ == textarea_html(props),
{
    let class = class_with_extra("textarea", &props.class);
    let mut h = String::from_str("<textarea class=\"");
    h.append(class.as_str());
    h.append("\"");
    let ph = opt_attr(" placeholder=\"", &props.placeholder);
    h.append(ph.as_str());
    let d = flag(props.disabled, " disabled");
    h.append(d.as_str());
    let attrs = props.attrs.render();
    h.append(attrs.as_str());
    h.append("></textarea>");
    Markup::from_string(h)
}

} // verus!
