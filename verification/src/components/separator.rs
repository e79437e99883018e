//! Separator: `<hr role="separator">`, styled through the role, no class.
use vstd::prelude::*;

use crate::markup::{attrs_text, AttrMap, Markup};

verus! {

pub struct SeparatorProps {
    pub attrs: AttrMap,
}

/// `<hr role="separator"{attrs}>`.
pub open spec fn separator_html(p: SeparatorProps) -> Seq<char> {
    "<hr role=\"separator\""@ + attrs_text(p.attrs.entries@) + ">"@
}

pub fn separator(props: SeparatorProps) -> (r: Markup)
    ensures
        r@ == separator_html(props),
{
    let mut h = String::from_str("<hr role=\"separator\"");
    let attrs = props.attrs.render();
    h.append(attrs.as_str());
    h.append(">");
    Markup::from_string(h)
}

} // verus!
