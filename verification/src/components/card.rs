//! Card: `<div class="card">` and its header, content, footer, title and
//! description sub-components.
use vstd::prelude::*;

use crate::components::sub::{render_sub, sub_element, SubProps};
use crate::markup::{attrs_text, class_with_extra, with_extra, AttrMap, Markup};

verus! {

pub struct CardProps {
    pub class: Option<String>,
    pub attrs: AttrMap,
    pub children: String,
}

pub open spec fn card_class_text(p: CardProps) -> Seq<char> {
    with_extra("card"@, p.class)
}

pub fn card_class(p: &CardProps) -> (r: String)
    ensures
        r@ == card_class_text(*p),
{
    class_with_extra("card", &p.class)
}

/// `<div class="{classes}"{attrs}>{children}</div>`.
pub open spec fn card_html(p: CardProps) -> Seq<char> {
    "<div class=\""@ + card_class_text(p) + "\""@ + attrs_text(p.attrs.entries@) + ">"@
        + p.children@ + "</div>"@
}

pub fn card(props: CardProps) -> (r: Markup)
    ensures
        r@ == card_html(props),
{
    let class = card_class(&props);
    let attrs = props.attrs.render();
    let mut h = String::from_str("<div class=\"");
    h.append(class.as_str());
    h.append("\"");
    h.append(attrs.as_str());
    h.append(">");
    h.append(props.children.as_str());
    h.append("</div>");
    Markup::from_string(h)
}

/// The `<header>` of a card.
pub fn card_header(props: SubProps) -> (r: Markup)
    ensures
        r@ == sub_element("header"@, props),
{
    render_sub("header", &props)
}

/// The `<section>` body of a card.
pub fn card_content(props: SubProps) -> (r: Markup)
    ensures
        r@ == sub_element("section"@, props),
{
    render_sub("section", &props)
}

/// The `<footer>` of a card.
pub fn card_footer(props: SubProps) -> (r: Markup)
    ensures
        r@ == sub_element("footer"@, props),
{
    render_sub("footer", &props)
}

/// The `<h2>` title in a card header.
pub fn card_title(props: SubProps) -> (r: Markup)
    ensures
        r@ == sub_element("h2"@, props),
{
    render_sub("h2", &props)
}

/// The `<p>` description in a card header.
pub fn card_description(props: SubProps) -> (r: Markup)
    ensures
        r@ == sub_element("p"@, props),
{
    render_sub("p", &props)
}

} // verus!
