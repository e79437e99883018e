//! Sidebar markup: an `<aside>` with optional header and footer, and the
//! sibling toggle button.
use vstd::prelude::*;

use crate::markup::{attrs_text, class_with_extra, or_default, or_text, with_extra, AttrMap, Markup};
use crate::text::{attr_escaped, escape_attr};

verus! {

pub struct SidebarProps {
    pub id: Option<String>,
    /// Rendered expanded (else collapsed).
    pub default_open: bool,
    pub header: Option<String>,
    pub footer: Option<String>,
    pub class: Option<String>,
    pub attrs: AttrMap,
    /// Navigation markup.
    pub children: String,
}

/// `{open}{markup}{close}` when present.
pub open spec fn around(open: Seq<char>, v: Option<String>, close: Seq<char>) -> Seq<char> {
    match v {
        Some(t) => open + t@ + close,
        None => Seq::empty(),
    }
}

fn around_part(open: &str, v: &Option<String>, close: &str) -> (r: String)
    ensures
        r@ == around(open@, *v, close@),
{
    match v {
        Some(t) => {
            let mut s = String::from_str(open);
            s.append(t.as_str());
            s.append(close);
            s
        },
        None => String::new(),
    }
}

/// The sidebar markup. The id defaults to `sidebar-1`.
pub open spec fn sidebar_html(p: SidebarProps) -> Seq<char> {
    "<aside id=\""@ + attr_escaped(or_text(p.id, "sidebar-1"@)) + "\" class=\""@ + with_extra(
        "sidebar"@,
        p.class,
    ) + "\" data-state=\""@ + (if p.default_open {
        "expanded"@
    } else {
        "collapsed"@
    }) + "\" data-basecoat-hydrate=\"sidebar\" data-basecoat-version=\"0.2\""@ + attrs_text(
        p.attrs.entries@,
    ) + ">"@ + around("<header class=\"sidebar-header\">"@, p.header, "</header>"@)
        + "<nav class=\"sidebar-nav\">"@ + p.children@ + "</nav>"@ + around(
        "<footer class=\"sidebar-footer\">"@,
        p.footer,
        "</footer>"@,
    ) + "</aside>"@
}

pub fn sidebar(props: SidebarProps) -> (r: Markup)
    ensures
        r@ == sidebar_html(props),
{
    let id = or_default(&props.id, "sidebar-1");
    let eid = escape_attr(id.as_str());
    let class = class_with_extra("sidebar", &props.class);
    let attrs = props.attrs.render();
    let state = if props.default_open {
        "expanded"
    } else {
        "collapsed"
    };
    let header = around_part("<header class=\"sidebar-header\">", &props.header, "</header>");
    let footer = around_part("<footer class=\"sidebar-footer\">", &props.footer, "</footer>");
    let mut h = String::from_str("<aside id=\"");
    h.append(eid.as_str());
    h.append("\" class=\"");
    h.append(class.as_str());
    h.append("\" data-state=\"");
    h.append(state);
    h.append("\" data-basecoat-hydrate=\"sidebar\" data-basecoat-version=\"0.2\"");
    h.append(attrs.as_str());
    h.append(">");
    h.append(header.as_str());
    h.append("<nav class=\"sidebar-nav\">");
    h.append(props.children.as_str());
    h.append("</nav>");
    h.append(footer.as_str());
    h.append("</aside>");
    assert(h@ =~= sidebar_html(props));
    Markup::from_string(h)
}

/// The toggle button of the sidebar `target_id`: `data-sidebar-toggle` and
/// `aria-controls` name it, `aria-expanded` reflects the initial state.
pub open spec fn sidebar_toggle_html(target_id: Seq<char>, label: Seq<char>, default_open: bool) -> Seq<char> {
    let tid = attr_escaped(target_id);
    "<button type=\"button\" data-sidebar-toggle=\""@ + tid + "\" aria-controls=\""@ + tid
        + "\" aria-expanded=\""@ + (if default_open {
        "true"@
    } else {
        "false"@
    }) + "\">"@ + attr_escaped(label) + "</button>"@
}

pub fn sidebar_toggle(target_id: &str, label: &str, default_open: bool) -> (r: Markup)
    ensures
        r@ == sidebar_toggle_html(target_id@, label@, default_open),
{
    let tid = escape_attr(target_id);
    let el = escape_attr(label);
    let mut h = String::from_str("<button type=\"button\" data-sidebar-toggle=\"");
    h.append(tid.as_str());
    h.append("\" aria-controls=\"");
    h.append(tid.as_str());
    h.append("\" aria-expanded=\"");
    h.append(if default_open {
        "true"
    } else {
        "false"
    });
    h.append("\">");
    h.append(el.as_str());
    h.append("</button>");
    Markup::from_string(h)
}

} // verus!
