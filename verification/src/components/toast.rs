//! Toaster host and toast notifications.
use vstd::prelude::*;

use crate::markup::{attrs_text, class_with_extra, with_extra, nonempty, AttrMap, Markup};
use crate::text::{attr_escaped, escape_attr, has_prefix};

verus! {

pub const ICON_SUCCESS: &'static str = "<svg aria-hidden=\"true\" xmlns=\"http://www.w3.org/2000/svg\" width=\"24\" height=\"24\" viewBox=\"0 0 24 24\" fill=\"none\" stroke=\"currentColor\" stroke-width=\"2\" stroke-linecap=\"round\" stroke-linejoin=\"round\"><circle cx=\"12\" cy=\"12\" r=\"10\"/><path d=\"m9 12 2 2 4-4\"/></svg>";

pub const ICON_ERROR: &'static str = "<svg aria-hidden=\"true\" xmlns=\"http://www.w3.org/2000/svg\" width=\"24\" height=\"24\" viewBox=\"0 0 24 24\" fill=\"none\" stroke=\"currentColor\" stroke-width=\"2\" stroke-linecap=\"round\" stroke-linejoin=\"round\"><circle cx=\"12\" cy=\"12\" r=\"10\"/><path d=\"m15 9-6 6\"/><path d=\"m9 9 6 6\"/></svg>";

pub const ICON_INFO: &'static str = "<svg aria-hidden=\"true\" xmlns=\"http://www.w3.org/2000/svg\" width=\"24\" height=\"24\" viewBox=\"0 0 24 24\" fill=\"none\" stroke=\"currentColor\" stroke-width=\"2\" stroke-linecap=\"round\" stroke-linejoin=\"round\"><circle cx=\"12\" cy=\"12\" r=\"10\"/><path d=\"M12 16v-4\"/><path d=\"M12 8h.01\"/></svg>";

pub const ICON_WARNING: &'static str = "<svg aria-hidden=\"true\" xmlns=\"http://www.w3.org/2000/svg\" width=\"24\" height=\"24\" viewBox=\"0 0 24 24\" fill=\"none\" stroke=\"currentColor\" stroke-width=\"2\" stroke-linecap=\"round\" stroke-linejoin=\"round\"><path d=\"m21.73 18-8-14a2 2 0 0 0-3.48 0l-8 14A2 2 0 0 0 4 21h16a2 2 0 0 0 1.73-3\"/><path d=\"M12 9v4\"/><path d=\"M12 17h.01\"/></svg>";

pub struct ToasterProps {
    pub id: String,
    pub class: Option<String>,
    pub attrs: AttrMap,
}

/// `toaster`, followed by the caller's classes when non-empty.
pub open spec fn toaster_class_text(p: ToasterProps) -> Seq<char> {
    if nonempty(p.class) {
        "toaster "@ + p.class->0@
    } else {
        "toaster"@
    }
}

/// `<div id="{id}" class="{classes}" data-toaster data-basecoat-hydrate="toast" data-basecoat-version="0.1"{attrs}></div>`.
pub open spec fn toaster_html(p: ToasterProps) -> Seq<char> {
    "<div id=\""@ + attr_escaped(p.id@) + "\" class=\""@ + toaster_class_text(p)
        + "\" data-toaster data-basecoat-hydrate=\"toast\" data-basecoat-version=\"0.1\""@
        + attrs_text(p.attrs.entries@) + "></div>"@
}

pub fn toaster(props: ToasterProps) -> (r: Markup)
    ensures
        r@ == toaster_html(props),
{
    let class = match &props.class {
        Some(c) => if c.as_str().unicode_len() > 0 {
            let mut s = String::from_str("toaster ");
            s.append(c.as_str());
            s
        } else {
            String::from_str("toaster")
        },
        None => String::from_str("toaster"),
    };
    let id = escape_attr(props.id.as_str());
    let attrs = props.attrs.render();
    let mut h = String::from_str("<div id=\"");
    h.append(id.as_str());
    h.append("\" class=\"");
    h.append(class.as_str());
    h.append("\" data-toaster data-basecoat-hydrate=\"toast\" data-basecoat-version=\"0.1\"");
    h.append(attrs.as_str());
    h.append("></div>");
    Markup::from_string(h)
}

#[derive(Clone, Copy, Debug, PartialEq, Eq, Structural)]
pub enum ToastCategory {
    Success,
    Error,
    Info,
    Warning,
}

pub open spec fn category_name(c: ToastCategory) -> Seq<char> {
    match c {
        ToastCategory::Success => "success"@,
        ToastCategory::Error => "error"@,
        ToastCategory::Info => "info"@,
        ToastCategory::Warning => "warning"@,
    }
}

pub fn category_str(c: ToastCategory) -> (r: &'static str)
    ensures
        r@ == category_name(c),
{
    match c {
        ToastCategory::Success => "success",
        ToastCategory::Error => "error",
        ToastCategory::Info => "info",
        ToastCategory::Warning => "warning",
    }
}

pub open spec fn icon_of(c: ToastCategory) -> Seq<char> {
    match c {
        ToastCategory::Success => ICON_SUCCESS@,
        ToastCategory::Error => ICON_ERROR@,
        ToastCategory::Info => ICON_INFO@,
        ToastCategory::Warning => ICON_WARNING@,
    }
}

pub struct ToastProps {
    pub category: ToastCategory,
    pub title: Option<String>,
    pub description: Option<String>,
    pub class: Option<String>,
    pub attrs: AttrMap,
}

/// `role="alert"` for errors, `role="status"` otherwise.
pub open spec fn role_of(c: ToastCategory) -> Seq<char> {
    if c == ToastCategory::Error {
        "alert"@
    } else {
        "status"@
    }
}

/// `{open}{escaped text}{close}` when the text is present.
pub open spec fn wrapped_text(open: Seq<char>, v: Option<String>, close: Seq<char>) -> Seq<char> {
    match v {
        Some(t) => open + attr_escaped(t@) + close,
        None => Seq::empty(),
    }
}

fn wrapped(open: &str, v: &Option<String>, close: &str) -> (r: String)
    ensures
        r@ == wrapped_text(open@, *v, close@),
{
    match v {
        Some(t) => {
            let mut s = String::from_str(open);
            let e = escape_attr(t.as_str());
            s.append(e.as_str());
            s.append(close);
            s
        },
        None => String::new(),
    }
}

/// The toast markup: a `div.toast` with role, category and hydration
/// markers, containing the category icon and a section with the escaped
/// title (`<h2>`) and description (`<p>`) when present.
pub open spec fn toast_html(p: ToastProps) -> Seq<char> {
    "<div class=\""@ + with_extra("toast"@, p.class) + "\" role=\""@ + role_of(p.category)
        + "\" aria-atomic=\"true\" aria-hidden=\"false\" data-category=\""@ + category_name(
        p.category,
    ) + "\" data-toast data-basecoat-hydrate=\"toast\" data-basecoat-version=\"0.1\""@
        + attrs_text(p.attrs.entries@) + "><div class=\"toast-content\">"@ + icon_of(p.category)
        + "<section>"@ + wrapped_text("<h2>"@, p.title, "</h2>"@) + wrapped_text(
        "<p>"@,
        p.description,
        "</p>"@,
    ) + "</section>"@ + "</div></div>"@
}

pub fn toast(props: ToastProps) -> (r: Markup)
    ensures
        r@ == toast_html(props),
{
    let class = class_with_extra("toast", &props.class);
    let role = if props.category == ToastCategory::Error {
        "alert"
    } else {
        "status"
    };
    let icon = match props.category {
        ToastCategory::Success => ICON_SUCCESS,
        ToastCategory::Error => ICON_ERROR,
        ToastCategory::Info => ICON_INFO,
        ToastCategory::Warning => ICON_WARNING,
    };
    let attrs = props.attrs.render();
    let title = wrapped("<h2>", &props.title, "</h2>");
    let description = wrapped("<p>", &props.description, "</p>");
    let mut h = String::from_str("<div class=\"");
    h.append(class.as_str());
    h.append("\" role=\"");
    h.append(role);
    h.append("\" aria-atomic=\"true\" aria-hidden=\"false\" data-category=\"");
    h.append(category_str(props.category));
    h.append("\" data-toast data-basecoat-hydrate=\"toast\" data-basecoat-version=\"0.1\"");
    h.append(attrs.as_str());
    h.append("><div class=\"toast-content\">");
    h.append(icon);
    h.append("<section>");
    h.append(title.as_str());
    h.append(description.as_str());
    h.append("</section>");
    h.append("</div></div>");
    Markup::from_string(h)
}

} // verus!

verus! {

/// An error toast is announced assertively: its element opens with
/// `role="alert"`; a toast of any other category opens with
/// `role="status"`.
pub proof fn lemma_toast_role(p: ToastProps)
    ensures
        has_prefix(
            toast_html(p),
            "<div class=\""@ + with_extra("toast"@, p.class) + "\" role=\""@ + (if p.category
                == ToastCategory::Error {
                "alert"@
            } else {
                "status"@
            }) + "\""@,
        ),
{
    let pre = "<div class=\""@ + with_extra("toast"@, p.class) + "\" role=\""@ + role_of(p.category)
        + "\""@;
    let h = toast_html(p);
    reveal_strlit("\" aria-atomic=\"true\" aria-hidden=\"false\" data-category=\"");
    reveal_strlit(" aria-atomic=\"true\" aria-hidden=\"false\" data-category=\"");
    reveal_strlit("\"");
    assert("\" aria-atomic=\"true\" aria-hidden=\"false\" data-category=\""@ =~= "\""@
        + " aria-atomic=\"true\" aria-hidden=\"false\" data-category=\""@);
    assert(h =~= pre + (" aria-atomic=\"true\" aria-hidden=\"false\" data-category=\""@
        + category_name(p.category) + "\" data-toast data-basecoat-hydrate=\"toast\" data-basecoat-version=\"0.1\""@
        + attrs_text(p.attrs.entries@) + "><div class=\"toast-content\">"@ + icon_of(p.category)
        + "<section>"@ + wrapped_text("<h2>"@, p.title, "</h2>"@) + wrapped_text(
        "<p>"@,
        p.description,
        "</p>"@,
    ) + "</section>"@ + "</div></div>"@));
    assert(h.take(pre.len() as int) =~= pre);
}

} // verus!

