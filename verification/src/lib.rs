//! basecoat — the verified core of a basecoat-style UI component library:
//! HTML rendering of the components and the decision logic of their
//! browser controllers (keyboard navigation, filtering, selection, toast
//! queueing, hydration), each stated as a contract and proved.
use vstd::prelude::*;

pub mod components;
pub mod controllers;
pub mod markup;
pub mod props_derive;
pub mod text;

use crate::components::alert::{alert_base, AlertVariant};
use crate::components::badge::{badge_base, BadgeVariant};
use crate::components::button::{button_class_of, compound_class, ButtonSize, ButtonVariant};
use crate::text::{sort_unique, strictly_sorted, views};

verus! {

/// The button variants, in declaration order.
pub open spec fn variant_at(i: int) -> ButtonVariant {
    if i == 0 {
        ButtonVariant::Primary
    } else if i == 1 {
        ButtonVariant::Secondary
    } else if i == 2 {
        ButtonVariant::Outline
    } else if i == 3 {
        ButtonVariant::GhostStyle
    } else if i == 4 {
        ButtonVariant::Link
    } else {
        ButtonVariant::Destructive
    }
}

/// The button sizes, in declaration order.
pub open spec fn size_at(i: int) -> ButtonSize {
    if i == 0 {
        ButtonSize::Default
    } else if i == 1 {
        ButtonSize::Sm
    } else if i == 2 {
        ButtonSize::Lg
    } else {
        ButtonSize::Icon
    }
}

/// Every class a component can emit: the compound button classes of all
/// variants and sizes, the badge and alert variants, the classes of card,
/// input, label, textarea, dialog (with the classes of its close icon),
/// tabs, toast (with its content wrapper) and toaster, and those of the
/// select (also used by the combobox), dropdown menu, popover and sidebar.
pub open spec fn safelist_sources() -> Seq<Seq<char>> {
    Seq::new(24, |k: int| button_class_of(variant_at(k / 4), size_at(k % 4))) + seq![
        badge_base(BadgeVariant::Default),
        badge_base(BadgeVariant::Secondary),
        badge_base(BadgeVariant::Destructive),
        badge_base(BadgeVariant::Outline),
        alert_base(AlertVariant::Default),
        alert_base(AlertVariant::Destructive),
        "card"@,
        "input"@,
        "label"@,
        "textarea"@,
        "dialog"@,
        "tabs"@,
        "toast"@,
        "toaster"@,
        "toast-content"@,
        "lucide"@,
        "lucide-x-icon"@,
        "lucide-x"@,
        "select"@,
        "select-native"@,
        "select-trigger"@,
        "dropdown-menu"@,
        "popover"@,
        "sidebar"@,
        "sidebar-header"@,
        "sidebar-nav"@,
        "sidebar-footer"@,
    ]
}

/// The strings of `v`, each followed by a newline.
pub open spec fn lines_text(v: Seq<Seq<char>>) -> Seq<char>
    decreases v.len(),
{
    if v.len() == 0 {
        Seq::empty()
    } else {
        lines_text(v.drop_last()) + v.last() + "\n"@
    }
}

/// The Tailwind safelist: every class any component can emit, sorted,
/// without repeats, one per line.
pub fn class_safelist() -> (r: String)
    ensures
        exists|l: Seq<Seq<char>>|
            strictly_sorted(l) && l.to_set() == safelist_sources().to_set() && r@ == lines_text(l),
{
    let variants = [
        ButtonVariant::Primary,
        ButtonVariant::Secondary,
        ButtonVariant::Outline,
        ButtonVariant::GhostStyle,
        ButtonVariant::Link,
        ButtonVariant::Destructive,
    ];
    let sizes = [ButtonSize::Default, ButtonSize::Sm, ButtonSize::Lg, ButtonSize::Icon];
    let mut all: Vec<String> = Vec::new();
    let mut vi: usize = 0;
    while vi < 6
        invariant
            vi <= 6,
            all@.len() == vi * 4,
            forall|i: int| 0 <= i < 6 ==> #[trigger] variants@[i] == variant_at(i),
            forall|i: int| 0 <= i < 4 ==> #[trigger] sizes@[i] == size_at(i),
            forall|k: int|
                0 <= k < vi * 4 ==> (#[trigger] all@[k])@ == button_class_of(
                    variant_at(k / 4),
                    size_at(k % 4),
                ),
        decreases 6 - vi,
    {
        let mut si: usize = 0;
        while si < 4
            invariant
                vi < 6,
                si <= 4,
                all@.len() == vi * 4 + si,
                forall|i: int| 0 <= i < 6 ==> #[trigger] variants@[i] == variant_at(i),
                forall|i: int| 0 <= i < 4 ==> #[trigger] sizes@[i] == size_at(i),
                forall|k: int|
                    0 <= k < vi * 4 + si ==> (#[trigger] all@[k])@ == button_class_of(
                        variant_at(k / 4),
                        size_at(k % 4),
                    ),
            decreases 4 - si,
        {
            let c = compound_class(variants[vi], sizes[si]);
            assert((vi * 4 + si) / 4 == vi && (vi * 4 + si) % 4 == si) by (nonlinear_arith)
                requires
                    si < 4,
            ;
            all.push(c);
            si = si + 1;
        }
        vi = vi + 1;
    }
    all.push(String::from_str("badge"));
    all.push(String::from_str("badge-secondary"));
    all.push(String::from_str("badge-destructive"));
    all.push(String::from_str("badge-outline"));
    all.push(String::from_str("alert"));
    all.push(String::from_str("alert-destructive"));
    all.push(String::from_str("card"));
    all.push(String::from_str("input"));
    all.push(String::from_str("label"));
    all.push(String::from_str("textarea"));
    all.push(String::from_str("dialog"));
    all.push(String::from_str("tabs"));
    all.push(String::from_str("toast"));
    all.push(String::from_str("toaster"));
    all.push(String::from_str("toast-content"));
    all.push(String::from_str("lucide"));
    all.push(String::from_str("lucide-x-icon"));
    all.push(String::from_str("lucide-x"));
    all.push(String::from_str("select"));
    all.push(String::from_str("select-native"));
    all.push(String::from_str("select-trigger"));
    all.push(String::from_str("dropdown-menu"));
    all.push(String::from_str("popover"));
    all.push(String::from_str("sidebar"));
    all.push(String::from_str("sidebar-header"));
    all.push(String::from_str("sidebar-nav"));
    all.push(String::from_str("sidebar-footer"));
    assert(views(all@) =~= safelist_sources());
    let sorted = sort_unique(&all);
    let mut out = String::new();
    let mut i: usize = 0;
    while i < sorted.len()
        invariant
            i <= sorted@.len(),
            out@ == lines_text(views(sorted@).take(i as int)),
        decreases sorted.len() - i,
    {
        out.append(sorted[i].as_str());
        out.append("\n");
        assert(views(sorted@).take(i + 1).drop_last() =~= views(sorted@).take(i as int));
        i = i + 1;
    }
    assert(views(sorted@).take(sorted.len() as int) =~= views(sorted@));
    out
}

} // verus!
