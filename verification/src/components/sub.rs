//! Props shared by the compound sub-components (card header, alert title,
//! …) and the element they render.
use vstd::prelude::*;

use crate::markup::{class_attr, class_attr_text, attrs_text, AttrMap, Markup};

verus! {

/// Props of a compound sub-component.
pub struct SubProps {
    /// Classes of the element, inserted as given.
    pub class: Option<String>,
    /// Extra attributes.
    pub attrs: AttrMap,
    /// Inner HTML, inserted verbatim.
    pub children: String,
}

/// `<{tag}{class}{attrs}>{children}</{tag}>`.
pub open spec fn sub_element(tag: Seq<char>, props: SubProps) -> Seq<char> {
    "<"@ + tag + class_attr_text(props.class) + attrs_text(props.attrs.entries@) + ">"@
        + props.children@ + "</"@ + tag + ">"@
}

pub fn render_sub(tag: &str, props: &SubProps) -> (r: Markup)
    ensures
        r@ == sub_element(tag@, *props),
{
    let mut h = String::from_str("<");
    h.append(tag);
    let c = class_attr(&props.class);
    h.append(c.as_str());
    let a = props.attrs.render();
    h.append(a.as_str());
    h.append(">");
    h.append(props.children.as_str());
    h.append("</");
    h.append(tag);
    h.append(">");
    Markup::from_string(h)
}

} // verus!
