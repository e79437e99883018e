//! Popover markup: `<details class="popover">` with a `<summary>` trigger
//! and a `role="dialog"` content panel.
use vstd::prelude::*;

use crate::markup::{attrs_text, class_with_extra, or_default, or_text, with_extra, AttrMap, Markup};
use crate::text::{attr_escaped, dec, escape_attr, format_u64};

verus! {

/// Where the panel floats relative to the trigger.
#[derive(Clone, Copy, Debug, PartialEq, Eq, Structural)]
pub enum PopoverPlacement {
    Top,
    TopStart,
    TopEnd,
    Right,
    RightStart,
    RightEnd,
    Bottom,
    BottomStart,
    BottomEnd,
    Left,
    LeftStart,
    LeftEnd,
}

pub open spec fn placement_name(p: PopoverPlacement) -> Seq<char> {
    match p {
        PopoverPlacement::Top => "top"@,
        PopoverPlacement::TopStart => "top-start"@,
        PopoverPlacement::TopEnd => "top-end"@,
        PopoverPlacement::Right => "right"@,
        PopoverPlacement::RightStart => "right-start"@,
        PopoverPlacement::RightEnd => "right-end"@,
        PopoverPlacement::Bottom => "bottom"@,
        PopoverPlacement::BottomStart => "bottom-start"@,
        PopoverPlacement::BottomEnd => "bottom-end"@,
        PopoverPlacement::Left => "left"@,
        PopoverPlacement::LeftStart => "left-start"@,
        PopoverPlacement::LeftEnd => "left-end"@,
    }
}

impl PopoverPlacement {
    pub fn as_str(&self) -> (r: &'static str)
        ensures
            r@ == placement_name(*self),
    {
        match self {
            PopoverPlacement::Top => "top",
            PopoverPlacement::TopStart => "top-start",
            PopoverPlacement::TopEnd => "top-end",
            PopoverPlacement::Right => "right",
            PopoverPlacement::RightStart => "right-start",
            PopoverPlacement::RightEnd => "right-end",
            PopoverPlacement::Bottom => "bottom",
            PopoverPlacement::BottomStart => "bottom-start",
            PopoverPlacement::BottomEnd => "bottom-end",
            PopoverPlacement::Left => "left",
            PopoverPlacement::LeftStart => "left-start",
            PopoverPlacement::LeftEnd => "left-end",
        }
    }
}

pub struct PopoverProps {
    pub id: Option<String>,
    pub placement: PopoverPlacement,
    /// Distance between trigger and panel, in pixels.
    pub offset_px: u32,
    /// Render an arrow element inside the panel.
    pub arrow: bool,
    /// Markup inside the `<summary>`.
    pub trigger: Option<String>,
    pub class: Option<String>,
    pub attrs: AttrMap,
    /// Panel markup.
    pub children: String,
}

/// The popover markup. The id defaults to `popover-1`; the panel id is the
/// id followed by `-content`.
pub open spec fn popover_html(p: PopoverProps) -> Seq<char> {
    let id = or_text(p.id, "popover-1"@);
    let cid = attr_escaped(id + "-content"@);
    "<details id=\""@ + attr_escaped(id) + "\" class=\""@ + with_extra("popover"@, p.class)
        + "\" data-basecoat-hydrate=\"popover\" data-basecoat-version=\"0.2\" data-popover data-placement=\""@
        + placement_name(p.placement) + "\" data-offset=\""@ + dec(p.offset_px as nat) + "\""@
        + attrs_text(p.attrs.entries@) + "><summary aria-haspopup=\"dialog\" aria-controls=\""@ + cid
        + "\" aria-expanded=\"false\">"@ + or_text(p.trigger, Seq::empty())
        + "</summary><div id=\""@ + cid + "\" role=\"dialog\" tabindex=\"-1\">"@ + p.children@
        + (if p.arrow {
        "<div data-popover-arrow></div>"@
    } else {
        Seq::empty()
    }) + "</div></details>"@
}

pub fn popover(props: PopoverProps) -> (r: Markup)
    ensures
        r@ == popover_html(props),
{
    let id = or_default(&props.id, "popover-1");
    let id_attr = escape_attr(id.as_str());
    let mut content_id = id.clone();
    content_id.append("-content");
    let cid = escape_attr(content_id.as_str());
    let class = class_with_extra("popover", &props.class);
    let attrs = props.attrs.render();
    let offset = format_u64(props.offset_px as u64);
    let trigger = or_default(&props.trigger, "");
    proof {
        reveal_strlit("");
        assert(""@ =~= Seq::<char>::empty());
    }
    let arrow = if props.arrow {
        String::from_str("<div data-popover-arrow></div>")
    } else {
        String::new()
    };
    let mut h = String::from_str("<details id=\"");
    h.append(id_attr.as_str());
    h.append("\" class=\"");
    h.append(class.as_str());
    h.append("\" data-basecoat-hydrate=\"popover\" data-basecoat-version=\"0.2\" data-popover data-placement=\"");
    h.append(props.placement.as_str());
    h.append("\" data-offset=\"");
    h.append(offset.as_str());
    h.append("\"");
    h.append(attrs.as_str());
    h.append("><summary aria-haspopup=\"dialog\" aria-controls=\"");
    h.append(cid.as_str());
    h.append("\" aria-expanded=\"false\">");
    h.append(trigger.as_str());
    h.append("</summary><div id=\"");
    h.append(cid.as_str());
    h.append("\" role=\"dialog\" tabindex=\"-1\">");
    h.append(props.children.as_str());
    h.append(arrow.as_str());
    h.append("</div></details>");
    assert(h@ =~= popover_html(props));
    Markup::from_string(h)
}

} // verus!
