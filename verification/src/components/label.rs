//! Label: `<label class="label">`.
use vstd::prelude::*;

use crate::markup::{attrs_text, class_with_extra, opt_attr, opt_attr_text, with_extra, AttrMap, Markup};

verus! {

pub struct LabelProps {
    /// The `for` attribute.
    pub for_id: Option<String>,
    pub class: Option<String>,
    pub attrs: AttrMap,
    pub children: String,
}

/// `<label class="{classes}"[ for=".."]{attrs}>{children}</label>`.
pub open spec fn label_html(p: LabelProps) -> Seq<char> {
    "<label class=\""@ + with_extra("label"@, p.class) + "\""@ + opt_attr_text(" for=\""@, p.for_id)
        + attrs_text(p.attrs.entries@) + ">"@ + p.children@ + "</label>"@
}

pub fn label(props: LabelProps) -> (r: Markup)
    ensures
        r@ == label_html(props),
{
    let class = class_with_extra("label", &props.class);
    let mut h = String::from_str("<label class=\"");
    h.append(class.as_str());
    h.append("\"");
    let f = opt_attr(" for=\"", &props.for_id);
    h.append(f.as_str());
    let attrs = props.attrs.render();
    h.append(attrs.as_str());
    h.append(">");
    h.append(props.children.as_str());
    h.append("</label>");
    Markup::from_string(h)
}

} // verus!
