//! Alert: `<div class="alert{-variant}">` holding a title and description.
use vstd::prelude::*;

use crate::components::sub::{render_sub, sub_element, SubProps};
use crate::markup::{attrs_text, class_with_extra, with_extra, AttrMap, Markup};

verus! {

#[derive(Clone, Copy, Debug, PartialEq, Eq, Structural)]
pub enum AlertVariant {
    Default,
    Destructive,
}

pub struct AlertProps {
    pub variant: AlertVariant,
    pub class: Option<String>,
    pub attrs: AttrMap,
    pub children: String,
}

/// `alert`, or `alert-destructive`.
pub open spec fn alert_base(v: AlertVariant) -> Seq<char> {
    match v {
        AlertVariant::Default => "alert"@,
        AlertVariant::Destructive => "alert-destructive"@,
    }
}

pub open spec fn alert_class_text(p: AlertProps) -> Seq<char> {
    with_extra(alert_base(p.variant), p.class)
}

pub fn alert_class(p: &AlertProps) -> (r: String)
    ensures
        r@ == alert_class_text(*p),
{
    let base = match p.variant {
        AlertVariant::Default => "alert",
        AlertVariant::Destructive => "alert-destructive",
    };
    class_with_extra(base, &p.class)
}

/// `<div class="{classes}"{attrs}>{children}</div>`.
pub open spec fn alert_html(p: AlertProps) -> Seq<char> {
    "<div class=\""@ + alert_class_text(p) + "\""@ + attrs_text(p.attrs.entries@) + ">"@
        + p.children@ + "</div>"@
}

pub fn alert(props: AlertProps) -> (r: Markup)
    ensures
        r@ == alert_html(props),
{
    let class = alert_class(&props);
    let attrs = props.attrs.render();
    let mut h = String::from_str("<div class=\"");
    h.append(class.as_str());
    h.append("\"");
    h.append(attrs.as_str());
    h.append(">");
    h.append(props.children.as_str());
    h.append("</div>");
    Markup::from_string(h)
}

/// The `<h2>` title inside an alert.
pub fn alert_title(props: SubProps) -> (r: Markup)
    ensures
        r@ == sub_element("h2"@, props),
{
    render_sub("h2", &props)
}

/// The `<section>` description inside an alert.
pub fn alert_description(props: SubProps) -> (r: Markup)
    ensures
        r@ == sub_element("section"@, props),
{
    render_sub("section", &props)
}

} // verus!
