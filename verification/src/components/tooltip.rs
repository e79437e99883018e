//! Tooltip: a `<span data-tooltip="..">` around the trigger; the tooltip
//! itself is drawn by CSS.
use vstd::prelude::*;

use crate::markup::{attrs_text, class_with_extra, with_extra, AttrMap, Markup};
use crate::text::{attr_escaped, escape_attr};

verus! {

#[derive(Clone, Copy, Debug, PartialEq, Eq, Structural)]
pub enum TooltipSide {
    Top,
    Right,
    Bottom,
    Left,
}

pub open spec fn side_name(s: TooltipSide) -> Seq<char> {
    match s {
        TooltipSide::Top => "top"@,
        TooltipSide::Right => "right"@,
        TooltipSide::Bottom => "bottom"@,
        TooltipSide::Left => "left"@,
    }
}

pub fn side_str(s: TooltipSide) -> (r: &'static str)
    ensures
        r@ == side_name(s),
{
    match s {
        TooltipSide::Top => "top",
        TooltipSide::Right => "right",
        TooltipSide::Bottom => "bottom",
        TooltipSide::Left => "left",
    }
}

pub struct TooltipProps {
    /// Tooltip text.
    pub content: String,
    pub side: TooltipSide,
    pub class: Option<String>,
    pub attrs: AttrMap,
    /// The trigger markup.
    pub children: String,
}

/// ` data-side=".."`, emitted for every side.
pub open spec fn side_attr_text(s: TooltipSide) -> Seq<char> {
    " data-side=\""@ + side_name(s) + "\""@
}

/// ` class=".."` only when the class list is not empty.
pub open spec fn tooltip_class_attr(p: TooltipProps) -> Seq<char> {
    let c = with_extra(Seq::empty(), p.class);
    if c.len() == 0 {
        Seq::empty()
    } else {
        " class=\""@ + c + "\""@
    }
}

/// `<span data-tooltip="{content}" data-side=".."[ class=".."]{attrs}>{children}</span>`.
pub open spec fn tooltip_html(p: TooltipProps) -> Seq<char> {
    "<span data-tooltip=\""@ + attr_escaped(p.content@) + "\""@ + side_attr_text(p.side)
        + tooltip_class_attr(p) + attrs_text(p.attrs.entries@) + ">"@ + p.children@ + "</span>"@
}

pub fn tooltip(props: TooltipProps) -> (r: Markup)
    ensures
        r@ == tooltip_html(props),
{
    let class = class_with_extra("", &props.class);
    proof {
        reveal_strlit("");
        assert(""@ =~= Seq::<char>::empty());
    }
    let content = escape_attr(props.content.as_str());
    let mut side_attr = String::from_str(" data-side=\"");
    side_attr.append(side_str(props.side));
    side_attr.append("\"");
    let class_attr = if class.as_str().unicode_len() == 0 {
        String::new()
    } else {
        let mut s = String::from_str(" class=\"");
        s.append(class.as_str());
        s.append("\"");
        s
    };
    let attrs = props.attrs.render();
    let mut h = String::from_str("<span data-tooltip=\"");
    h.append(content.as_str());
    h.append("\"");
    h.append(side_attr.as_str());
    h.append(class_attr.as_str());
    h.append(attrs.as_str());
    h.append(">");
    h.append(props.children.as_str());
    h.append("</span>");
    Markup::from_string(h)
}

} // verus!
