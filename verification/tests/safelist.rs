use basecoat::class_safelist;

#[test]
fn safelist_is_sorted_unique_one_per_line() {
    let list = class_safelist();
    assert!(list.ends_with('\n'));
    let lines: Vec<&str> = list.lines().collect();
    assert!(lines.windows(2).all(|w| w[0] < w[1]), "not strictly sorted: {lines:?}");
    assert!(lines.iter().all(|l| !l.is_empty() && !l.contains(' ')));
    assert_eq!(lines.len(), 51);
}

#[test]
fn safelist_holds_every_component_class() {
    let list = class_safelist();
    let lines: Vec<&str> = list.lines().collect();
    for cls in [
        "btn-primary", "btn-sm-primary", "btn-lg-destructive", "btn-icon-ghost", "btn-outline", "badge",
        "badge-outline", "alert", "alert-destructive", "card", "input", "label", "textarea",
        "dialog", "tabs", "toast", "toaster", "toast-content", "lucide", "lucide-x-icon", "lucide-x",
        "select", "select-native", "select-trigger", "dropdown-menu", "popover", "sidebar",
        "sidebar-header", "sidebar-nav", "sidebar-footer",
    ] {
        assert!(lines.contains(&cls), "missing {cls}");
    }
    assert_eq!(lines.first(), Some(&"alert"));
}
