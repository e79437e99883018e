//! Dialog: a trigger button and a native `<dialog>` with header, body,
//! footer and close button.
use vstd::prelude::*;

use crate::markup::{attrs_text, class_with_extra, flag, flag_text, or_default, or_text, with_extra, AttrMap, Markup};
use crate::text::{attr_escaped, escape_attr};

verus! {

/// Close icon (lucide "x").
pub const CLOSE_ICON: &'static str = "<svg xmlns=\"http://www.w3.org/2000/svg\" width=\"24\" height=\"24\" viewBox=\"0 0 24 24\" fill=\"none\" stroke=\"currentColor\" stroke-width=\"2\" stroke-linecap=\"round\" stroke-linejoin=\"round\" class=\"lucide lucide-x-icon lucide-x\"><path d=\"M18 6 6 18\"/><path d=\"m6 6 12 12\"/></svg>";

pub struct DialogProps {
    pub id: Option<String>,
    /// Markup of the trigger button; no trigger without it.
    pub trigger: Option<String>,
    pub title: Option<String>,
    pub description: Option<String>,
    /// Markup of the footer.
    pub footer: Option<String>,
    pub close_button: bool,
    pub close_on_overlay_click: bool,
    pub class: Option<String>,
    pub attrs: AttrMap,
    /// Body markup.
    pub children: String,
}

/// The trigger: a button opening the dialog `eid` (escaped id).
pub open spec fn trigger_text(eid: Seq<char>, trigger: Option<String>) -> Seq<char> {
    match trigger {
        Some(t) => "<button type=\"button\" data-dialog-trigger=\""@ + eid
            + "\" onclick=\"document.getElementById('"@ + eid + "').showModal()\">"@ + t@
            + "</button>"@,
        None => Seq::empty(),
    }
}

/// The header: present when there is a title or a description.
pub open spec fn header_text(eid: Seq<char>, p: DialogProps) -> Seq<char> {
    if p.title is Some || p.description is Some {
        "<header>"@ + (match p.title {
            Some(t) => "<h2 id=\""@ + eid + "-title\">"@ + attr_escaped(t@) + "</h2>"@,
            None => Seq::empty(),
        }) + (match p.description {
            Some(d) => "<p id=\""@ + eid + "-description\">"@ + attr_escaped(d@) + "</p>"@,
            None => Seq::empty(),
        }) + "</header>"@
    } else {
        Seq::empty()
    }
}

/// `{open}{markup}{close}` when present.
pub open spec fn around(open: Seq<char>, v: Option<String>, close: Seq<char>) -> Seq<char> {
    match v {
        Some(t) => open + t@ + close,
        None => Seq::empty(),
    }
}

pub open spec fn close_button_text() -> Seq<char> {
    "<button type=\"button\" aria-label=\"Close dialog\" onclick=\"this.closest('dialog').close()\">"@
        + CLOSE_ICON@ + "</button>"@
}

/// The full dialog markup. The id defaults to `dialog-1`.
pub open spec fn dialog_html(p: DialogProps) -> Seq<char> {
    let eid = attr_escaped(or_text(p.id, "dialog-1"@));
    trigger_text(eid, p.trigger) + "<dialog id=\""@ + eid + "\" class=\""@ + with_extra(
        "dialog"@,
        p.class,
    ) + "\" aria-labelledby=\""@ + eid + "-title\""@ + (if p.description is Some {
        " aria-describedby=\""@ + eid + "-description\""@
    } else {
        Seq::empty()
    }) + flag_text(p.close_on_overlay_click, " onclick=\"if (event.target === this) this.close()\""@)
        + " data-dialog data-basecoat-hydrate=\"dialog\" data-basecoat-version=\"0.1\""@
        + attrs_text(p.attrs.entries@) + "><div>"@ + header_text(eid, p) + (if p.children@.len()
        > 0 {
        "<section>"@ + p.children@ + "</section>"@
    } else {
        Seq::empty()
    }) + around("<footer>"@, p.footer, "</footer>"@) + flag_text(
        p.close_button,
        close_button_text(),
    ) + "</div></dialog>"@
}

fn trigger_part(eid: &str, trigger: &Option<String>) -> (r: String)
    ensures
        r@ == trigger_text(eid@, *trigger),
{
    match trigger {
        Some(t) => {
            let mut s = String::from_str("<button type=\"button\" data-dialog-trigger=\"");
            s.append(eid);
            s.append("\" onclick=\"document.getElementById('");
            s.append(eid);
            s.append("').showModal()\">");
            s.append(t.as_str());
            s.append("</button>");
            s
        },
        None => String::new(),
    }
}

fn header_part(eid: &str, p: &DialogProps) -> (r: String)
    ensures
        r@ == header_text(eid@, *p),
{
    if p.title.is_some() || p.description.is_some() {
        let mut s = String::from_str("<header>");
        let ghost s0 = s@;
        match &p.title {
            Some(t) => {
                s.append("<h2 id=\"");
                s.append(eid);
                s.append("-title\">");
                let e = escape_attr(t.as_str());
                s.append(e.as_str());
                s.append("</h2>");
            },
            None => {},
        }
        let ghost t_part = match &p.title {
            Some(t) => "<h2 id=\""@ + eid@ + "-title\">"@ + attr_escaped(t@) + "</h2>"@,
            None => Seq::<char>::empty(),
        };
        assert(s@ =~= s0 + t_part);
        let ghost s1 = s@;
        match &p.description {
            Some(d) => {
                s.append("<p id=\"");
                s.append(eid);
                s.append("-description\">");
                let e = escape_attr(d.as_str());
                s.append(e.as_str());
                s.append("</p>");
            },
            None => {},
        }
        let ghost d_part = match &p.description {
            Some(d) => "<p id=\""@ + eid@ + "-description\">"@ + attr_escaped(d@) + "</p>"@,
            None => Seq::<char>::empty(),
        };
        assert(s@ =~= s1 + d_part);
        s.append("</header>");
        s
    } else {
        String::new()
    }
}

fn around_part(open: &str, v: &Option<String>, close: &str) -> (r: String)
    ensures
        r@ == around(open@, *v, close@),
{
    match v {
        Some(t) => {
            let mut s = String::from_str(open);
            s.append(t.as_str());
            s.append(close);
            s
        },
        None => String::new(),
    }
}

pub fn dialog(props: DialogProps) -> (r: Markup)
    ensures
        r@ == dialog_html(props),
{
    let id = or_default(&props.id, "dialog-1");
    let eid = escape_attr(id.as_str());
    let class = class_with_extra("dialog", &props.class);
    let trigger = trigger_part(eid.as_str(), &props.trigger);
    let described = if props.description.is_some() {
        let mut s = String::from_str(" aria-describedby=\"");
        s.append(eid.as_str());
        s.append("-description\"");
        s
    } else {
        String::new()
    };
    let overlay = flag(props.close_on_overlay_click, " onclick=\"if (event.target === this) this.close()\"");
    let attrs = props.attrs.render();
    let header = header_part(eid.as_str(), &props);
    let body = if props.children.as_str().unicode_len() > 0 {
        let mut s = String::from_str("<section>");
        s.append(props.children.as_str());
        s.append("</section>");
        s
    } else {
        String::new()
    };
    let footer = around_part("<footer>", &props.footer, "</footer>");
    let close = if props.close_button {
        let mut s = String::from_str("<button type=\"button\" aria-label=\"Close dialog\" onclick=\"this.closest('dialog').close()\">");
        s.append(CLOSE_ICON);
        s.append("</button>");
        s
    } else {
        String::new()
    };
    let mut h = String::new();
    h.append(trigger.as_str());
    h.append("<dialog id=\"");
    h.append(eid.as_str());
    h.append("\" class=\"");
    h.append(class.as_str());
    h.append("\" aria-labelledby=\"");
    h.append(eid.as_str());
    h.append("-title\"");
    h.append(described.as_str());
    h.append(overlay.as_str());
    h.append(" data-dialog data-basecoat-hydrate=\"dialog\" data-basecoat-version=\"0.1\"");
    h.append(attrs.as_str());
    h.append("><div>");
    h.append(header.as_str());
    h.append(body.as_str());
    h.append(footer.as_str());
    h.append(close.as_str());
    h.append("</div></dialog>");
    assert(h@ =~= dialog_html(props));
    Markup::from_string(h)
}

} // verus!
