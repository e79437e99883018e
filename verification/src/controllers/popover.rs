//! Popover: a `<details class="popover">` whose `<summary>` opens a
//! floating `role="dialog"` panel.
use vstd::prelude::*;

use crate::text::{ascii_lower, str_eq, to_ascii_lowercase};

verus! {

/// Only a `<details>` element (tag name compared ignoring ASCII case) can
/// host a popover.
pub fn is_details_tag(tag_name: &str) -> (r: bool)
    ensures
        r == (ascii_lower(tag_name@) == "details"@),
{
    let lower = to_ascii_lowercase(tag_name);
    str_eq(lower.as_str(), "details")
}

/// Id of the content panel of the popover `id`.
pub fn content_id(id: &str) -> (r: String)
    ensures
        r@ == id@ + "-content"@,
{
    let mut s = String::from_str(id);
    s.append("-content");
    s
}

/// Placement used when the element has no `data-placement`.
pub fn placement_or_default(attr: Option<String>) -> (r: String)
    ensures
        r@ == match attr {
            Some(p) => p@,
            None => "bottom"@,
        },
{
    match attr {
        Some(p) => p,
        None => String::from_str("bottom"),
    }
}

/// `data-state` of the `<details>` and `aria-expanded` of the summary.
pub fn state_attrs(open: bool) -> (r: (&'static str, &'static str))
    ensures
        r.0@ == (if open {
            "open"@
        } else {
            "closed"@
        }),
        r.1@ == (if open {
            "true"@
        } else {
            "false"@
        }),
{
    if open {
        ("open", "true")
    } else {
        ("closed", "false")
    }
}

} // verus!
