//! Tabs: a tablist of tab buttons followed by the tab panels; tabs are
//! numbered from 1 and `default_tab_index` selects the initial one.
use vstd::prelude::*;

use crate::markup::{attrs_text, class_with_extra, or_default, or_text, with_extra, AttrMap, Markup};
use crate::text::{attr_escaped, attr_is, dec, escape_attr, format_u64, has_substring, occurs_at};

verus! {

#[derive(Clone, Copy, Debug, PartialEq, Eq, Structural)]
pub enum TabsOrientation {
    Horizontal,
    Vertical,
}

pub open spec fn orientation_name(o: TabsOrientation) -> Seq<char> {
    match o {
        TabsOrientation::Horizontal => "horizontal"@,
        TabsOrientation::Vertical => "vertical"@,
    }
}

pub fn orientation_str(o: TabsOrientation) -> (r: &'static str)
    ensures
        r@ == orientation_name(o),
        o == TabsOrientation::Vertical ==> r@ == "vertical"@,
        o == TabsOrientation::Horizontal ==> r@ == "horizontal"@,
{
    match o {
        TabsOrientation::Horizontal => "horizontal",
        TabsOrientation::Vertical => "vertical",
    }
}

/// One tab: the markup of its button and, optionally, of its panel.
pub struct TabSet {
    pub tab: String,
    pub panel: Option<String>,
}

pub struct TabsProps {
    pub id: Option<String>,
    pub tabsets: Vec<TabSet>,
    pub orientation: TabsOrientation,
    /// 1-based index of the selected tab.
    pub default_tab_index: usize,
    pub class: Option<String>,
    pub attrs: AttrMap,
}

pub open spec fn bool_text(b: bool) -> Seq<char> {
    if b {
        "true"@
    } else {
        "false"@
    }
}

/// The tab button with 1-based number `idx`.
pub open spec fn tab_button(eid: Seq<char>, idx: nat, selected: bool, tab: Seq<char>) -> Seq<char> {
    "<button type=\"button\" role=\"tab\" id=\""@ + eid + "-tab-"@ + dec(idx)
        + "\" aria-controls=\""@ + eid + "-panel-"@ + dec(idx) + "\" aria-selected=\""@
        + bool_text(selected) + "\" tabindex=\"0\">"@ + tab + "</button>"@
}

/// The buttons of all tabs, numbered from 1.
pub open spec fn tab_buttons(eid: Seq<char>, sets: Seq<TabSet>, default: nat) -> Seq<char>
    decreases sets.len(),
{
    if sets.len() == 0 {
        Seq::empty()
    } else {
        tab_buttons(eid, sets.drop_last(), default) + tab_button(
            eid,
            sets.len(),
            sets.len() == default,
            sets.last().tab@,
        )
    }
}

/// The panel of the tab with number `idx`, when it has one; hidden unless
/// selected.
pub open spec fn tab_panel(eid: Seq<char>, idx: nat, default: nat, set: TabSet) -> Seq<char> {
    match set.panel {
        Some(p) => "<div role=\"tabpanel\" id=\""@ + eid + "-panel-"@ + dec(idx)
            + "\" aria-labelledby=\""@ + eid + "-tab-"@ + dec(idx)
            + "\" tabindex=\"-1\" aria-selected=\""@ + bool_text(idx == default) + "\""@ + (if idx
            != default {
            " hidden"@
        } else {
            Seq::empty()
        }) + ">"@ + p@ + "</div>"@,
        None => Seq::empty(),
    }
}

pub open spec fn tab_panels(eid: Seq<char>, sets: Seq<TabSet>, default: nat) -> Seq<char>
    decreases sets.len(),
{
    if sets.len() == 0 {
        Seq::empty()
    } else {
        tab_panels(eid, sets.drop_last(), default) + tab_panel(
            eid,
            sets.len(),
            default,
            sets.last(),
        )
    }
}

/// The tabs markup. The id defaults to `tabs-1`.
pub open spec fn tabs_html(p: TabsProps) -> Seq<char> {
    let eid = attr_escaped(or_text(p.id, "tabs-1"@));
    "<div class=\""@ + with_extra("tabs"@, p.class) + "\" id=\""@ + eid
        + "\" data-tabs data-basecoat-hydrate=\"tabs\" data-basecoat-version=\"0.1\""@
        + attrs_text(p.attrs.entries@) + ">"@ + "<nav role=\"tablist\" aria-orientation=\""@
        + orientation_name(p.orientation) + "\">"@ + tab_buttons(
        eid,
        p.tabsets@,
        p.default_tab_index as nat,
    ) + "</nav>"@ + tab_panels(eid, p.tabsets@, p.default_tab_index as nat) + "</div>"@
}

fn push_tab_button(h: &mut String, eid: &str, idx: usize, selected: bool, tab: &str)
    ensures
        final(h)@ == old(h)@ + tab_button(eid@, idx as nat, selected, tab@),
{
    let n = format_u64(idx as u64);
    let ghost start = h@;
    h.append("<button type=\"button\" role=\"tab\" id=\"");
    h.append(eid);
    h.append("-tab-");
    h.append(n.as_str());
    h.append("\" aria-controls=\"");
    h.append(eid);
    h.append("-panel-");
    h.append(n.as_str());
    h.append("\" aria-selected=\"");
    h.append(if selected {
        "true"
    } else {
        "false"
    });
    h.append("\" tabindex=\"0\">");
    h.append(tab);
    h.append("</button>");
    assert(h@ =~= start + tab_button(eid@, idx as nat, selected, tab@));
}

fn push_tab_panel(h: &mut String, eid: &str, idx: usize, default: usize, set: &TabSet)
    ensures
        final(h)@ == old(h)@ + tab_panel(eid@, idx as nat, default as nat, *set),
{
    match &set.panel {
        Some(p) => {
            let n = format_u64(idx as u64);
            let ghost start = h@;
            h.append("<div role=\"tabpanel\" id=\"");
            h.append(eid);
            h.append("-panel-");
            h.append(n.as_str());
            h.append("\" aria-labelledby=\"");
            h.append(eid);
            h.append("-tab-");
            h.append(n.as_str());
            h.append("\" tabindex=\"-1\" aria-selected=\"");
            h.append(if idx == default {
                "true"
            } else {
                "false"
            });
            h.append("\"");
            let ghost mid = h@;
            if idx != default {
                h.append(" hidden");
            }
            let ghost hid = if idx != default {
                " hidden"@
            } else {
                Seq::<char>::empty()
            };
            assert(h@ =~= mid + hid);
            h.append(">");
            h.append(p.as_str());
            h.append("</div>");
            assert(h@ =~= start + tab_panel(eid@, idx as nat, default as nat, *set));
        },
        None => {
            assert(h@ =~= old(h)@ + Seq::<char>::empty());
        },
    }
}

pub fn tabs(props: TabsProps) -> (r: Markup)
    requires
        props.tabsets@.len() < usize::MAX,
    ensures
        r@ == tabs_html(props),
{
    let id = or_default(&props.id, "tabs-1");
    let eid = escape_attr(id.as_str());
    let class = class_with_extra("tabs", &props.class);
    let attrs = props.attrs.render();
    let default = props.default_tab_index;
    let mut h = String::from_str("<div class=\"");
    h.append(class.as_str());
    h.append("\" id=\"");
    h.append(eid.as_str());
    h.append("\" data-tabs data-basecoat-hydrate=\"tabs\" data-basecoat-version=\"0.1\"");
    h.append(attrs.as_str());
    h.append(">");
    h.append("<nav role=\"tablist\" aria-orientation=\"");
    h.append(orientation_str(props.orientation));
    h.append("\">");
    let ghost before_buttons = h@;
    let n = props.tabsets.len();
    let mut i: usize = 0;
    while i < n
        invariant
            n == props.tabsets@.len(),
            n < usize::MAX,
            i <= n,
            h@ == before_buttons + tab_buttons(eid@, props.tabsets@.take(i as int), default as nat),
        decreases n - i,
    {
        let ghost prev = h@;
        push_tab_button(&mut h, eid.as_str(), i + 1, i + 1 == default, props.tabsets[i].tab.as_str());
        assert(props.tabsets@.take(i + 1).drop_last() =~= props.tabsets@.take(i as int));
        assert(h@ =~= before_buttons + tab_buttons(eid@, props.tabsets@.take(i + 1), default as nat));
        i = i + 1;
    }
    assert(props.tabsets@.take(n as int) =~= props.tabsets@);
    h.append("</nav>");
    let ghost before_panels = h@;
    let mut j: usize = 0;
    while j < n
        invariant
            n == props.tabsets@.len(),
            n < usize::MAX,
            j <= n,
            h@ == before_panels + tab_panels(eid@, props.tabsets@.take(j as int), default as nat),
        decreases n - j,
    {
        push_tab_panel(&mut h, eid.as_str(), j + 1, default, &props.tabsets[j]);
        assert(props.tabsets@.take(j + 1).drop_last() =~= props.tabsets@.take(j as int));
        assert(h@ =~= before_panels + tab_panels(eid@, props.tabsets@.take(j + 1), default as nat));
        j = j + 1;
    }
    h.append("</div>");
    assert(h@ =~= tabs_html(props));
    Markup::from_string(h)
}

} // verus!

verus! {

/// The tablist states its orientation: `aria-orientation="vertical"` for
/// vertical tabs and `"horizontal"` for horizontal ones.
pub proof fn lemma_tabs_orientation_rendered(p: TabsProps)
    ensures
        has_substring(
            tabs_html(p),
            "<nav role=\"tablist\" aria-orientation=\""@ + (if p.orientation
                == TabsOrientation::Vertical {
                "vertical"@
            } else {
                "horizontal"@
            }) + "\">"@,
        ),
{
    let eid = attr_escaped(or_text(p.id, "tabs-1"@));
    let pre = "<div class=\""@ + with_extra("tabs"@, p.class) + "\" id=\""@ + eid
        + "\" data-tabs data-basecoat-hydrate=\"tabs\" data-basecoat-version=\"0.1\""@
        + attrs_text(p.attrs.entries@) + ">"@;
    let mid = "<nav role=\"tablist\" aria-orientation=\""@ + orientation_name(p.orientation)
        + "\">"@;
    let rest = tab_buttons(eid, p.tabsets@, p.default_tab_index as nat) + "</nav>"@ + tab_panels(
        eid,
        p.tabsets@,
        p.default_tab_index as nat,
    ) + "</div>"@;
    let h = tabs_html(p);
    assert(h =~= pre + mid + rest);
    assert(h.subrange(pre.len() as int, pre.len() as int + mid.len() as int) =~= mid);
    assert(occurs_at(h, mid, pre.len() as int));
}

/// The orientation a tablist is rendered with is the one the tabs
/// controller reads back: its `aria-orientation` is `"vertical"` exactly
/// for vertical tabs.
pub proof fn lemma_tabs_orientation_read_back(o: TabsOrientation, rendered: String)
    requires
        rendered@ == orientation_name(o),
    ensures
        attr_is(Some(rendered), "vertical"@) <==> o == TabsOrientation::Vertical,
{
    reveal_strlit("vertical");
    reveal_strlit("horizontal");
    assert("vertical"@.len() == 8 && "horizontal"@.len() == 10);
}

} // verus!
