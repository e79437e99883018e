//! Button: `<button>` with a compound class `btn{-size}{-variant}`.
use vstd::prelude::*;

use crate::markup::{attrs_text, class_with_extra, with_extra, AttrMap, Markup};

verus! {

#[derive(Clone, Copy, Debug, PartialEq, Eq, Structural)]
pub enum ButtonVariant {
    Primary,
    Secondary,
    Outline,
    GhostStyle,
    Link,
    Destructive,
}

#[derive(Clone, Copy, Debug, PartialEq, Eq, Structural)]
pub enum ButtonSize {
    Default,
    Sm,
    Lg,
    Icon,
}

pub struct ButtonProps {
    pub variant: ButtonVariant,
    pub size: ButtonSize,
    pub class: Option<String>,
    pub attrs: AttrMap,
    pub children: String,
}

/// The size part of the class: nothing for the default size.
pub open spec fn size_part(s: ButtonSize) -> Seq<char> {
    match s {
        ButtonSize::Default => Seq::empty(),
        ButtonSize::Sm => "-sm"@,
        ButtonSize::Lg => "-lg"@,
        ButtonSize::Icon => "-icon"@,
    }
}

/// The variant part of the class.
pub open spec fn variant_part(v: ButtonVariant) -> Seq<char> {
    match v {
        ButtonVariant::Primary => "-primary"@,
        ButtonVariant::Secondary => "-secondary"@,
        ButtonVariant::Outline => "-outline"@,
        ButtonVariant::GhostStyle => "-ghost"@,
        ButtonVariant::Link => "-link"@,
        ButtonVariant::Destructive => "-destructive"@,
    }
}

/// One compound class: `btn`, then the size part, then the variant part
/// (`btn-lg-destructive`, not `btn btn-lg btn-destructive`).
pub open spec fn button_class_of(variant: ButtonVariant, size: ButtonSize) -> Seq<char> {
    "btn"@ + size_part(size) + variant_part(variant)
}

pub open spec fn button_base(p: ButtonProps) -> Seq<char> {
    button_class_of(p.variant, p.size)
}

pub open spec fn button_class_text(p: ButtonProps) -> Seq<char> {
    with_extra(button_base(p), p.class)
}

/// The compound class of a variant and size.
pub fn compound_class(variant: ButtonVariant, size: ButtonSize) -> (r: String)
    ensures
        r@ == button_class_of(variant, size),
{
    let mut base = String::from_str("btn");
    let size_text = match size {
        ButtonSize::Default => "",
        ButtonSize::Sm => "-sm",
        ButtonSize::Lg => "-lg",
        ButtonSize::Icon => "-icon",
    };
    proof {
        reveal_strlit("");
    }
    base.append(size_text);
    let variant_text = match variant {
        ButtonVariant::Primary => "-primary",
        ButtonVariant::Secondary => "-secondary",
        ButtonVariant::Outline => "-outline",
        ButtonVariant::GhostStyle => "-ghost",
        ButtonVariant::Link => "-link",
        ButtonVariant::Destructive => "-destructive",
    };
    base.append(variant_text);
    assert(base@ =~= button_class_of(variant, size));
    base
}

pub fn button_class(p: &ButtonProps) -> (r: String)
    ensures
        r@ == button_class_text(*p),
{
    let base = compound_class(p.variant, p.size);
    class_with_extra(base.as_str(), &p.class)
}

/// `<button class="{classes}"{attrs}>{children}</button>`.
pub open spec fn button_html(p: ButtonProps) -> Seq<char> {
    "<button class=\""@ + button_class_text(p) + "\""@ + attrs_text(p.attrs.entries@) + ">"@
        + p.children@ + "</button>"@
}

pub fn button(props: ButtonProps) -> (r: Markup)
    ensures
        r@ == button_html(props),
{
    let class = button_class(&props);
    let attrs = props.attrs.render();
    let mut h = String::from_str("<button class=\"");
    h.append(class.as_str());
    h.append("\"");
    h.append(attrs.as_str());
    h.append(">");
    h.append(props.children.as_str());
    h.append("</button>");
    Markup::from_string(h)
}

} // verus!
