use basecoat::components::button::{button, ButtonProps, ButtonSize, ButtonVariant};
use basecoat::components::combobox::{combobox, ComboOption, ComboboxProps};
use basecoat::components::dropdown::{dropdown, render_item, DropdownItem, DropdownProps};
use basecoat::components::popover::{popover, PopoverPlacement, PopoverProps};
use basecoat::components::select::{select, SelectOption, SelectProps};
use basecoat::components::sidebar::{sidebar, sidebar_toggle, SidebarProps};
use basecoat::components::toast::{toaster, ToasterProps};
use basecoat::components::tooltip::{tooltip, TooltipProps, TooltipSide};
use basecoat::markup::{AttrEntry, AttrMap, Markup};
use basecoat::text::{escape_attr, html_escape};

fn attrs(list: &[(&str, Option<&str>)]) -> AttrMap {
    AttrMap {
        entries: list
            .iter()
            .map(|(n, v)| AttrEntry { name: n.to_string(), value: v.map(|x| x.to_string()) })
            .collect(),
    }
}

#[test]
fn attr_map_renders_in_order_and_escapes() {
    let m = attrs(&[("data-x", Some("a\"b")), ("hidden", None), ("title", Some("<t>"))]);
    assert_eq!(m.render(), r#" data-x="a&quot;b" hidden title="&lt;t&gt;""#);
    assert_eq!(AttrMap::new().render(), "");
}

#[test]
fn escaping_rules() {
    assert_eq!(escape_attr(r#"a&b<c>"d'e"#), "a&amp;b&lt;c&gt;&quot;d&#39;e");
    assert_eq!(escape_attr("plain"), "plain");
    assert_eq!(html_escape("<&>"), "&lt;&amp;&gt;");
    let m = Markup::from_string("<b>x</b>".to_string());
    assert_eq!(m.as_str(), "<b>x</b>");
}

#[test]
fn combobox_markup() {
    let html = combobox(ComboboxProps {
        id: Some("fruit".to_string()),
        name: Some("f".to_string()),
        placeholder: Some("Pick".to_string()),
        value: None,
        disabled: true,
        options: vec![
            ComboOption { value: "a".to_string(), label: "Apple".to_string() },
            ComboOption { value: "b&c".to_string(), label: "B <c>".to_string() },
        ],
        class: None,
        attrs: AttrMap::new(),
    });
    assert_eq!(
        html.to_string(),
        [
            r#"<div class="select" id="fruit" data-combobox data-basecoat-hydrate="combobox" data-basecoat-version="0.2">"#,
            r#"<input type="text" role="combobox" aria-controls="fruit-listbox" aria-expanded="false" aria-autocomplete="list" autocomplete="off" data-combobox-input name="f" placeholder="Pick" disabled>"#,
            r#"<div role="listbox" id="fruit-listbox" data-combobox-listbox hidden>"#,
            r#"<button type="button" role="option" id="fruit-option-0" data-value="a" tabindex="-1">Apple</button>"#,
            r#"<button type="button" role="option" id="fruit-option-1" data-value="b&amp;c" tabindex="-1">B &lt;c&gt;</button>"#,
            r#"</div></div>"#,
        ]
        .concat()
    );
}

#[test]
fn combobox_default_id() {
    let html = combobox(ComboboxProps {
        id: None,
        name: None,
        placeholder: None,
        value: Some("x".to_string()),
        disabled: false,
        options: vec![],
        class: Some("wide".to_string()),
        attrs: AttrMap::new(),
    });
    assert_eq!(
        html.to_string(),
        [
            r#"<div class="select wide" id="combobox-1" data-combobox data-basecoat-hydrate="combobox" data-basecoat-version="0.2">"#,
            r#"<input type="text" role="combobox" aria-controls="combobox-1-listbox" aria-expanded="false" aria-autocomplete="list" autocomplete="off" data-combobox-input value="x">"#,
            r#"<div role="listbox" id="combobox-1-listbox" data-combobox-listbox hidden></div></div>"#,
        ]
        .concat()
    );
}

#[test]
fn popover_markup() {
    let html = popover(PopoverProps {
        id: Some("p".to_string()),
        placement: PopoverPlacement::TopEnd,
        offset_px: 8,
        arrow: true,
        trigger: Some("Open".to_string()),
        class: None,
        attrs: AttrMap::new(),
        children: "<p>Hi</p>".to_string(),
    });
    assert_eq!(
        html.to_string(),
        [
            r#"<details id="p" class="popover" data-basecoat-hydrate="popover" data-basecoat-version="0.2" data-popover data-placement="top-end" data-offset="8">"#,
            r#"<summary aria-haspopup="dialog" aria-controls="p-content" aria-expanded="false">Open</summary>"#,
            r#"<div id="p-content" role="dialog" tabindex="-1"><p>Hi</p><div data-popover-arrow></div></div></details>"#,
        ]
        .concat()
    );
    assert_eq!(PopoverPlacement::LeftStart.as_str(), "left-start");
    assert_eq!(PopoverPlacement::Bottom.as_str(), "bottom");
}

#[test]
fn sidebar_markup() {
    let html = sidebar(SidebarProps {
        id: None,
        default_open: false,
        header: Some("H".to_string()),
        footer: None,
        class: None,
        attrs: attrs(&[("data-side", Some("left"))]),
        children: "<a>x</a>".to_string(),
    });
    assert_eq!(
        html.to_string(),
        [
            r#"<aside id="sidebar-1" class="sidebar" data-state="collapsed" data-basecoat-hydrate="sidebar" data-basecoat-version="0.2" data-side="left">"#,
            r#"<header class="sidebar-header">H</header><nav class="sidebar-nav"><a>x</a></nav></aside>"#,
        ]
        .concat()
    );
    assert_eq!(
        sidebar_toggle("nav", "Menu & more", true).to_string(),
        r#"<button type="button" data-sidebar-toggle="nav" aria-controls="nav" aria-expanded="true">Menu &amp; more</button>"#
    );
}

#[test]
fn dropdown_markup() {
    let item = DropdownItem { label: "Delete".to_string(), value: Some("del".to_string()), disabled: true };
    assert_eq!(
        render_item(&item),
        r#"<button type="button" role="menuitem" tabindex="-1" data-value="del" aria-disabled="true" disabled>Delete</button>"#
    );
    let html = dropdown(DropdownProps {
        id: Some("m".to_string()),
        placement: None,
        trigger: Some("Menu".to_string()),
        menu_label: Some("Actions".to_string()),
        items: vec![DropdownItem { label: "Edit".to_string(), value: None, disabled: false }],
        class: None,
        attrs: AttrMap::new(),
        children: String::new(),
    });
    assert_eq!(
        html.to_string(),
        [
            r#"<details id="m" class="dropdown-menu" data-dropdown data-basecoat-hydrate="dropdown" data-basecoat-version="0.2" data-placement="bottom-start">"#,
            r#"<summary aria-haspopup="menu" aria-expanded="false">Menu</summary>"#,
            r#"<div role="menu" aria-label="Actions"><button type="button" role="menuitem" tabindex="-1" aria-disabled="false">Edit</button></div></details>"#,
        ]
        .concat()
    );
}

#[test]
fn select_markup() {
    let html = select(SelectProps {
        id: Some("s".to_string()),
        value: Some("b".to_string()),
        placeholder: None,
        name: Some("n".to_string()),
        disabled: false,
        label: Some("Fruit".to_string()),
        options: vec![
            SelectOption { value: "a".to_string(), label: "Apple".to_string(), disabled: true },
            SelectOption { value: "b".to_string(), label: "Banana".to_string(), disabled: false },
        ],
        class: None,
        attrs: AttrMap::new(),
        children: String::new(),
    });
    assert_eq!(
        html.to_string(),
        [
            r#"<div class="select" id="s-root" data-basecoat-hydrate="select" data-basecoat-version="0.2">"#,
            r#"<select class="select-native" hidden name="n" id="s-native" data-select-native>"#,
            r#"<option value="a" disabled>Apple</option><option value="b" selected>Banana</option></select>"#,
            r#"<button type="button" class="select-trigger" id="s" data-select-trigger aria-haspopup="listbox" aria-expanded="false" aria-controls="s-listbox" aria-label="Fruit">"#,
            r#"<span data-select-value>Banana</span></button>"#,
            r#"<div id="s-listbox" role="listbox" data-select-listbox tabindex="-1" hidden aria-labelledby="s">"#,
            r#"<button type="button" role="option" data-value="a" aria-selected="false" tabindex="-1" aria-disabled="true" disabled>Apple</button>"#,
            r#"<button type="button" role="option" data-value="b" aria-selected="true" tabindex="0">Banana</button>"#,
            r#"</div></div>"#,
        ]
        .concat()
    );
}

#[test]
fn select_shows_placeholder_without_match() {
    let html = select(SelectProps {
        id: None,
        value: None,
        placeholder: None,
        name: None,
        disabled: true,
        label: None,
        options: vec![],
        class: None,
        attrs: AttrMap::new(),
        children: String::new(),
    });
    assert_eq!(
        html.to_string(),
        [
            r#"<div class="select" id="select-1-root" data-basecoat-hydrate="select" data-basecoat-version="0.2">"#,
            r#"<select class="select-native" hidden disabled id="select-1-native" data-select-native></select>"#,
            r#"<button type="button" class="select-trigger" id="select-1" data-select-trigger aria-haspopup="listbox" aria-expanded="false" aria-controls="select-1-listbox" disabled>"#,
            r#"<span data-select-value>Select an option</span></button>"#,
            r#"<div id="select-1-listbox" role="listbox" data-select-listbox tabindex="-1" hidden aria-labelledby="select-1"></div></div>"#,
        ]
        .concat()
    );
}

#[test]
fn toaster_markup() {
    let html = toaster(ToasterProps { id: "t".to_string(), class: Some("top".to_string()), attrs: AttrMap::new() });
    assert_eq!(
        html.to_string(),
        r#"<div id="t" class="toaster top" data-toaster data-basecoat-hydrate="toast" data-basecoat-version="0.1"></div>"#
    );
    let plain = toaster(ToasterProps { id: "t".to_string(), class: Some(String::new()), attrs: AttrMap::new() });
    assert_eq!(
        plain.to_string(),
        r#"<div id="t" class="toaster" data-toaster data-basecoat-hydrate="toast" data-basecoat-version="0.1"></div>"#
    );
}

#[test]
fn primary_button_renders_btn_primary() {
    let html = button(ButtonProps {
        variant: ButtonVariant::Primary,
        size: ButtonSize::Default,
        class: None,
        attrs: AttrMap::new(),
        children: "Save".to_string(),
    });
    assert_eq!(html.to_string(), r#"<button class="btn-primary">Save</button>"#);
}

#[test]
fn dropdown_items_state_aria_disabled() {
    let html = dropdown(DropdownProps {
        id: Some("m".to_string()),
        placement: None,
        trigger: None,
        menu_label: None,
        items: vec![
            DropdownItem { label: "Edit".to_string(), value: Some("edit".to_string()), disabled: false },
            DropdownItem { label: "Delete".to_string(), value: None, disabled: true },
        ],
        class: None,
        attrs: AttrMap::new(),
        children: String::new(),
    })
    .to_string();
    assert!(html.contains(r#"data-placement="bottom-start""#));
    assert!(html.contains(r#"<summary aria-haspopup="menu" aria-expanded="false"></summary><div role="menu"><button type="button" role="menuitem" tabindex="-1" data-value="edit" aria-disabled="false">Edit</button>"#));
    assert!(html.ends_with(r#"<button type="button" role="menuitem" tabindex="-1" aria-disabled="true" disabled>Delete</button></div></details>"#));
}

#[test]
fn tooltip_states_every_side() {
    for (side, name) in [
        (TooltipSide::Top, "top"),
        (TooltipSide::Right, "right"),
        (TooltipSide::Bottom, "bottom"),
        (TooltipSide::Left, "left"),
    ] {
        let html = tooltip(TooltipProps {
            content: "a<b".to_string(),
            side,
            class: None,
            attrs: AttrMap::new(),
            children: "x".to_string(),
        })
        .to_string();
        assert_eq!(html, format!(r#"<span data-tooltip="a&lt;b" data-side="{name}">x</span>"#));
    }
}
