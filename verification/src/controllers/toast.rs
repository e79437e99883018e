//! Toasts: auto-dismissing notifications inside a `[data-toaster]` host.
//! Newest on top, at most [`MAX_VISIBLE`] shown, each closing after its
//! duration (default [`DEFAULT_DURATION_MS`]).
use vstd::prelude::*;

use crate::text::{dec, format_u64, html_escape, html_escaped, lemma_parse_format_u32, parse_u32,
    parse_u32_spec,
};

verus! {

/// Toasts shown at once.
pub const MAX_VISIBLE: usize = 5;

/// Duration of a toast without `data-duration`.
pub const DEFAULT_DURATION_MS: u32 = 5000;

/// The duration a pre-rendered toast runs for: its `data-duration` parsed
/// as a `u32`, or [`DEFAULT_DURATION_MS`] when absent or unparsable.
pub open spec fn duration_of(attr: Option<String>) -> u32 {
    match attr {
        Some(s) => match parse_u32_spec(s@) {
            Some(d) => d,
            None => DEFAULT_DURATION_MS,
        },
        None => DEFAULT_DURATION_MS,
    }
}

pub fn duration_from_attr(attr: &Option<String>) -> (r: u32)
    ensures
        r == duration_of(*attr),
{
    match attr {
        Some(s) => match parse_u32(s.as_str()) {
            Some(d) => d,
            None => DEFAULT_DURATION_MS,
        },
        None => DEFAULT_DURATION_MS,
    }
}

/// The `data-duration` value written on a toast created with `duration`.
pub fn duration_attr(duration: u32) -> (r: String)
    ensures
        r@ == dec(duration as nat),
{
    format_u64(duration as u64)
}

/// A duration written by [`duration_attr`] is read back unchanged by
/// [`duration_from_attr`].
pub proof fn lemma_duration_round_trip(duration: u32, attr: String)
    requires
        attr@ == dec(duration as nat),
    ensures
        duration_of(Some(attr)) == duration,
{
    lemma_parse_format_u32(duration);
}

/// How many of the oldest toasts leave before a new one is added, so that
/// with the new one at most [`MAX_VISIBLE`] are shown.
pub fn removals_needed(count: usize) -> (r: usize)
    ensures
        count >= MAX_VISIBLE ==> r == count - (MAX_VISIBLE - 1),
        count < MAX_VISIBLE ==> r == 0,
        count - r + 1 <= MAX_VISIBLE,
{
    if count >= MAX_VISIBLE {
        count - (MAX_VISIBLE - 1)
    } else {
        0
    }
}

/// The action button of a programmatic toast.
pub struct ToastAction {
    pub label: String,
    /// Name of the event dispatched on the toast when the action is
    /// clicked.
    pub event_name: String,
}

/// The options of `window.basecoat.toast({ .. })`.
pub struct ToastOptions {
    pub title: Option<String>,
    pub description: Option<String>,
    pub category: Option<String>,
    pub duration: Option<u32>,
    pub action: Option<ToastAction>,
}

/// The value of a string option, or the empty string.
pub open spec fn or_empty(s: Option<String>) -> Seq<char> {
    match s {
        Some(v) => v@,
        None => Seq::empty(),
    }
}

/// Inner HTML of a programmatic toast: the title, the description when not
/// empty, the action button when there is one, and the close button; the
/// texts escaped.
pub open spec fn toast_inner(opts: ToastOptions) -> Seq<char> {
    let title = or_empty(opts.title);
    let description = or_empty(opts.description);
    "<div data-toast-title>"@ + html_escaped(title) + "</div>"@ + (if description.len() == 0 {
        Seq::empty()
    } else {
        "<div data-toast-description>"@ + html_escaped(description) + "</div>"@
    }) + (match opts.action {
        Some(a) => "<button data-toast-action type=\"button\">"@ + html_escaped(a.label@)
            + "</button>"@,
        None => Seq::empty(),
    }) + "<button data-toast-close type=\"button\" aria-label=\"Close\">\u{d7}</button>"@
}

pub fn toast_inner_html(opts: &ToastOptions) -> (r: String)
    ensures
        r@ == toast_inner(*opts),
{
    let mut out = String::new();
    out.append("<div data-toast-title>");
    let title = match &opts.title {
        Some(t) => html_escape(t.as_str()),
        None => html_escape(""),
    };
    proof {
        if opts.title is None {
            assert(""@ =~= Seq::<char>::empty()) by {
                reveal_strlit("");
            }
        }
    }
    out.append(title.as_str());
    out.append("</div>");
    let ghost after_title = out@;
    if let Some(d) = &opts.description {
        if d.as_str().unicode_len() > 0 {
            out.append("<div data-toast-description>");
            let e = html_escape(d.as_str());
            out.append(e.as_str());
            out.append("</div>");
        }
    }
    let ghost after_desc = out@;
    if let Some(a) = &opts.action {
        out.append("<button data-toast-action type=\"button\">");
        let e = html_escape(a.label.as_str());
        out.append(e.as_str());
        out.append("</button>");
    }
    out.append("<button data-toast-close type=\"button\" aria-label=\"Close\">\u{d7}</button>");
    proof {
        let description = or_empty(opts.description);
        let desc_part = if description.len() == 0 {
            Seq::<char>::empty()
        } else {
            "<div data-toast-description>"@ + html_escaped(description) + "</div>"@
        };
        assert(after_desc =~= after_title + desc_part);
    }
    assert(out@ =~= toast_inner(*opts));
    out
}

/// One attribute of a created toast element.
pub struct Attr {
    pub name: String,
    pub value: String,
}

/// The attributes set on a toast created programmatically, in order:
/// `class="toast"`, `data-toast`, `role="status"`, `aria-live="polite"`,
/// `data-state="open"`, `data-category` when the category is not empty,
/// and `data-duration`.
pub open spec fn toast_attrs_ok(r: Seq<Attr>, category: Seq<char>, duration: u32) -> bool {
    let fixed = seq![
        ("class"@, "toast"@),
        ("data-toast"@, Seq::<char>::empty()),
        ("role"@, "status"@),
        ("aria-live"@, "polite"@),
        ("data-state"@, "open"@),
    ];
    let with_cat = if category.len() == 0 {
        fixed
    } else {
        fixed.push(("data-category"@, category))
    };
    let all = with_cat.push(("data-duration"@, dec(duration as nat)));
    r.len() == all.len() && forall|i: int|
        0 <= i < r.len() ==> (#[trigger] r[i]).name@ == all[i].0 && r[i].value@ == all[i].1
}

fn attr(name: &str, value: String) -> (r: Attr)
    ensures
        r.name@ == name@,
        r.value@ == value@,
{
    Attr { name: String::from_str(name), value }
}

pub fn toast_attributes(category: &str, duration: u32) -> (r: Vec<Attr>)
    ensures
        toast_attrs_ok(r@, category@, duration),
{
    let mut v: Vec<Attr> = Vec::new();
    v.push(attr("class", String::from_str("toast")));
    v.push(attr("data-toast", String::new()));
    v.push(attr("role", String::from_str("status")));
    v.push(attr("aria-live", String::from_str("polite")));
    v.push(attr("data-state", String::from_str("open")));
    if category.unicode_len() > 0 {
        v.push(attr("data-category", String::from_str(category)));
    }
    v.push(attr("data-duration", duration_attr(duration)));
    v
}

/// The duration of a programmatic toast: the `duration` option, or
/// [`DEFAULT_DURATION_MS`].
pub fn toast_duration(opts: &ToastOptions) -> (r: u32)
    ensures
        r == match opts.duration {
            Some(d) => d,
            None => DEFAULT_DURATION_MS,
        },
{
    match opts.duration {
        Some(d) => d,
        None => DEFAULT_DURATION_MS,
    }
}

} // verus!
