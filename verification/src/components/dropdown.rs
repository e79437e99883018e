//! Dropdown menu markup: `<details>` with a `<summary>` trigger and a
//! `role="menu"` of menu-item buttons.
use vstd::prelude::*;

use crate::markup::{
    attrs_text, class_with_extra, opt_attr, opt_attr_text, or_default, or_text, with_extra,
    AttrMap, Markup,
};
use crate::text::{attr_escaped, escape_attr};

verus! {

pub struct DropdownItem {
    pub label: String,
    pub value: Option<String>,
    pub disabled: bool,
}

pub struct DropdownProps {
    pub id: Option<String>,
    /// Floating placement; `bottom-start` when absent.
    pub placement: Option<String>,
    /// Markup inside the `<summary>`.
    pub trigger: Option<String>,
    /// `aria-label` of the menu.
    pub menu_label: Option<String>,
    pub items: Vec<DropdownItem>,
    pub class: Option<String>,
    pub attrs: AttrMap,
    /// Extra menu markup appended after the items.
    pub children: String,
}

/// One menu item button; every item states `aria-disabled`, and a
/// disabled one also carries `disabled`.
pub open spec fn item_text(item: DropdownItem) -> Seq<char> {
    "<button type=\"button\" role=\"menuitem\" tabindex=\"-1\""@ + opt_attr_text(
        " data-value=\""@,
        item.value,
    ) + (if item.disabled {
        " aria-disabled=\"true\" disabled"@
    } else {
        " aria-disabled=\"false\""@
    }) + ">"@ + attr_escaped(item.label@) + "</button>"@
}

pub open spec fn items_text(items: Seq<DropdownItem>) -> Seq<char>
    decreases items.len(),
{
    if items.len() == 0 {
        Seq::empty()
    } else {
        items_text(items.drop_last()) + item_text(items.last())
    }
}

/// The dropdown markup. The id defaults to `dropdown-1`.
pub open spec fn dropdown_html(p: DropdownProps) -> Seq<char> {
    "<details id=\""@ + attr_escaped(or_text(p.id, "dropdown-1"@)) + "\" class=\""@ + attr_escaped(
        with_extra("dropdown-menu"@, p.class),
    ) + "\" data-dropdown "@ + "data-basecoat-hydrate=\"dropdown\" data-basecoat-version=\"0.2\" "@
        + "data-placement=\""@ + attr_escaped(or_text(p.placement, "bottom-start"@)) + "\""@
        + attrs_text(p.attrs.entries@) + ">"@ + "<summary aria-haspopup=\"menu\" aria-expanded=\"false\">"@
        + or_text(p.trigger, Seq::empty()) + "</summary>"@ + "<div role=\"menu\""@ + opt_attr_text(
        " aria-label=\""@,
        p.menu_label,
    ) + ">"@ + items_text(p.items@) + p.children@ + "</div></details>"@
}

/// Renders one menu item.
pub fn render_item(item: &DropdownItem) -> (r: String)
    ensures
        r@ == item_text(*item),
{
    let dv = opt_attr(" data-value=\"", &item.value);
    let dis = if item.disabled {
        String::from_str(" aria-disabled=\"true\" disabled")
    } else {
        String::from_str(" aria-disabled=\"false\"")
    };
    let label = escape_attr(item.label.as_str());
    let mut s = String::from_str("<button type=\"button\" role=\"menuitem\" tabindex=\"-1\"");
    s.append(dv.as_str());
    s.append(dis.as_str());
    s.append(">");
    s.append(label.as_str());
    s.append("</button>");
    s
}

pub fn dropdown(props: DropdownProps) -> (r: Markup)
    ensures
        r@ == dropdown_html(props),
{
    let id = or_default(&props.id, "dropdown-1");
    let class = class_with_extra("dropdown-menu", &props.class);
    let attrs = props.attrs.render();
    let placement = or_default(&props.placement, "bottom-start");
    let trigger = or_default(&props.trigger, "");
    proof {
        reveal_strlit("");
        assert(""@ =~= Seq::<char>::empty());
    }
    let eid = escape_attr(id.as_str());
    let ecl = escape_attr(class.as_str());
    let epl = escape_attr(placement.as_str());
    let mut h = String::from_str("<details id=\"");
    h.append(eid.as_str());
    h.append("\" class=\"");
    h.append(ecl.as_str());
    h.append("\" data-dropdown ");
    h.append("data-basecoat-hydrate=\"dropdown\" data-basecoat-version=\"0.2\" ");
    h.append("data-placement=\"");
    h.append(epl.as_str());
    h.append("\"");
    h.append(attrs.as_str());
    h.append(">");
    h.append("<summary aria-haspopup=\"menu\" aria-expanded=\"false\">");
    h.append(trigger.as_str());
    h.append("</summary>");
    h.append("<div role=\"menu\"");
    let ml = opt_attr(" aria-label=\"", &props.menu_label);
    h.append(ml.as_str());
    h.append(">");
    let ghost before = h@;
    let mut i: usize = 0;
    while i < props.items.len()
        invariant
            i <= props.items@.len(),
            h@ == before + items_text(props.items@.take(i as int)),
        decreases props.items.len() - i,
    {
        let it = render_item(&props.items[i]);
        h.append(it.as_str());
        assert(props.items@.take(i + 1).drop_last() =~= props.items@.take(i as int));
        assert(h@ =~= before + items_text(props.items@.take(i + 1)));
        i = i + 1;
    }
    assert(props.items@.take(props.items.len() as int) =~= props.items@);
    h.append(props.children.as_str());
    h.append("</div></details>");
    assert(h@ =~= dropdown_html(props));
    Markup::from_string(h)
}

} // verus!
