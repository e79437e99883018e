//! Badge: `<span class="badge{-variant}">`.
use vstd::prelude::*;

use crate::markup::{attrs_text, class_with_extra, with_extra, AttrMap, Markup};

verus! {

#[derive(Clone, Copy, Debug, PartialEq, Eq, Structural)]
pub enum BadgeVariant {
    Default,
    Secondary,
    Destructive,
    Outline,
}

pub struct BadgeProps {
    pub variant: BadgeVariant,
    pub class: Option<String>,
    pub attrs: AttrMap,
    pub children: String,
}

/// `badge`, or `badge-{variant}` for the non-default variants.
pub open spec fn badge_base(v: BadgeVariant) -> Seq<char> {
    match v {
        BadgeVariant::Default => "badge"@,
        BadgeVariant::Secondary => "badge-secondary"@,
        BadgeVariant::Destructive => "badge-destructive"@,
        BadgeVariant::Outline => "badge-outline"@,
    }
}

pub open spec fn badge_class_text(p: BadgeProps) -> Seq<char> {
    with_extra(badge_base(p.variant), p.class)
}

pub fn badge_class(p: &BadgeProps) -> (r: String)
    ensures
        r@ == badge_class_text(*p),
{
    let base = match p.variant {
        BadgeVariant::Default => "badge",
        BadgeVariant::Secondary => "badge-secondary",
        BadgeVariant::Destructive => "badge-destructive",
        BadgeVariant::Outline => "badge-outline",
    };
    class_with_extra(base, &p.class)
}

/// `<span class="{classes}"{attrs}>{children}</span>`.
pub open spec fn badge_html(p: BadgeProps) -> Seq<char> {
    "<span class=\""@ + badge_class_text(p) + "\""@ + attrs_text(p.attrs.entries@) + ">"@
        + p.children@ + "</span>"@
}

pub fn badge(props: BadgeProps) -> (r: Markup)
    ensures
        r@ == badge_html(props),
{
    let class = badge_class(&props);
    let attrs = props.attrs.render();
    let mut h = String::from_str("<span class=\"");
    h.append(class.as_str());
    h.append("\"");
    h.append(attrs.as_str());
    h.append(">");
    h.append(props.children.as_str());
    h.append("</span>");
    Markup::from_string(h)
}

} // verus!
