use basecoat::components::alert::{alert, AlertProps, AlertVariant};
use basecoat::components::badge::{badge, BadgeProps, BadgeVariant};
use basecoat::components::button::{button, ButtonProps, ButtonSize, ButtonVariant};
use basecoat::components::card::{card, CardProps};
use basecoat::components::dialog::{dialog, DialogProps, CLOSE_ICON};
use basecoat::components::input::{input, InputProps};
use basecoat::components::label::{label, LabelProps};
use basecoat::components::separator::{separator, SeparatorProps};
use basecoat::components::tabs::{tabs, TabSet, TabsOrientation, TabsProps};
use basecoat::components::textarea::{textarea, TextareaProps};
use basecoat::components::toast::{toast, ToastCategory, ToastProps, ICON_SUCCESS};
use basecoat::components::tooltip::{tooltip, TooltipProps, TooltipSide};
use basecoat::markup::AttrMap;

fn button_props(variant: ButtonVariant, size: ButtonSize, children: &str) -> ButtonProps {
    ButtonProps { variant, size, class: None, attrs: AttrMap::new(), children: children.to_string() }
}

#[test]
fn snapshot_button_default() {
    let html = button(button_props(ButtonVariant::Primary, ButtonSize::Default, "Click me"));
    assert_eq!(html.to_string(), r#"<button class="btn-primary">Click me</button>"#);
}

#[test]
fn snapshot_button_lg_destructive() {
    let html = button(button_props(ButtonVariant::Destructive, ButtonSize::Lg, "Delete"));
    assert_eq!(html.to_string(), r#"<button class="btn-lg-destructive">Delete</button>"#);
}

#[test]
fn snapshot_input_email() {
    let html = input(InputProps {
        input_type: Some("email".to_string()),
        placeholder: Some("you@example.com".to_string()),
        value: None,
        disabled: false,
        class: None,
        attrs: AttrMap::new(),
    });
    assert_eq!(html.to_string(), r#"<input class="input" type="email" placeholder="you@example.com">"#);
}

#[test]
fn snapshot_label() {
    let html = label(LabelProps {
        for_id: Some("email".to_string()),
        class: None,
        attrs: AttrMap::new(),
        children: "Email address".to_string(),
    });
    assert_eq!(html.to_string(), r#"<label class="label" for="email">Email address</label>"#);
}

#[test]
fn snapshot_textarea() {
    let html = textarea(TextareaProps {
        placeholder: Some("Type your message here".to_string()),
        disabled: false,
        class: None,
        attrs: AttrMap::new(),
    });
    assert_eq!(
        html.to_string(),
        r#"<textarea class="textarea" placeholder="Type your message here"></textarea>"#
    );
}

#[test]
fn snapshot_card() {
    let html = card(CardProps {
        class: None,
        attrs: AttrMap::new(),
        children: "<header><h2>Title</h2></header><section>Body</section>".to_string(),
    });
    assert_eq!(
        html.to_string(),
        r#"<div class="card"><header><h2>Title</h2></header><section>Body</section></div>"#
    );
}

#[test]
fn snapshot_badge_destructive() {
    let html = badge(BadgeProps {
        variant: BadgeVariant::Destructive,
        class: None,
        attrs: AttrMap::new(),
        children: "Error".to_string(),
    });
    assert_eq!(html.to_string(), r#"<span class="badge-destructive">Error</span>"#);
}

#[test]
fn snapshot_alert_destructive() {
    let html = alert(AlertProps {
        variant: AlertVariant::Destructive,
        class: None,
        attrs: AttrMap::new(),
        children: "<h2>Error</h2><section>Something went wrong.</section>".to_string(),
    });
    assert_eq!(
        html.to_string(),
        r#"<div class="alert-destructive"><h2>Error</h2><section>Something went wrong.</section></div>"#
    );
}

#[test]
fn snapshot_separator() {
    let html = separator(SeparatorProps { attrs: AttrMap::new() });
    assert_eq!(html.to_string(), r#"<hr role="separator">"#);
}

#[test]
fn snapshot_dialog() {
    let html = dialog(DialogProps {
        id: Some("test-dialog".to_string()),
        trigger: Some("Open".to_string()),
        title: Some("Edit Profile".to_string()),
        description: Some("Make changes here.".to_string()),
        footer: None,
        close_button: true,
        close_on_overlay_click: true,
        class: None,
        attrs: AttrMap::new(),
        children: "<p>Dialog body content</p>".to_string(),
    });
    let expected = [
            r#"<button type="button" data-dialog-trigger="test-dialog" onclick="document.getElementById('test-dialog').showModal()">Open</button>"#,
            r#"<dialog id="test-dialog" class="dialog" aria-labelledby="test-dialog-title" aria-describedby="test-dialog-description" onclick="if (event.target === this) this.close()" data-dialog data-basecoat-hydrate="dialog" data-basecoat-version="0.1"><div>"#,
            r#"<header><h2 id="test-dialog-title">Edit Profile</h2><p id="test-dialog-description">Make changes here.</p></header>"#,
            r#"<section><p>Dialog body content</p></section>"#,
            r#"<button type="button" aria-label="Close dialog" onclick="this.closest('dialog').close()">"#,
            CLOSE_ICON,
            r#"</button>"#,
            r#"</div></dialog>"#,
    ]
    .concat();
    assert_eq!(html.to_string(), expected);
}

#[test]
fn snapshot_tabs() {
    let html = tabs(TabsProps {
        id: Some("demo-tabs".to_string()),
        tabsets: vec![
            TabSet { tab: "Account".to_string(), panel: Some("Account panel content".to_string()) },
            TabSet { tab: "Password".to_string(), panel: Some("Password panel content".to_string()) },
        ],
        orientation: TabsOrientation::Horizontal,
        default_tab_index: 1,
        class: None,
        attrs: AttrMap::new(),
    });
    let expected = [
        r#"<div class="tabs" id="demo-tabs" data-tabs data-basecoat-hydrate="tabs" data-basecoat-version="0.1">"#,
        r#"<nav role="tablist" aria-orientation="horizontal">"#,
        r#"<button type="button" role="tab" id="demo-tabs-tab-1" aria-controls="demo-tabs-panel-1" aria-selected="true" tabindex="0">Account</button>"#,
        r#"<button type="button" role="tab" id="demo-tabs-tab-2" aria-controls="demo-tabs-panel-2" aria-selected="false" tabindex="0">Password</button>"#,
        r#"</nav>"#,
        r#"<div role="tabpanel" id="demo-tabs-panel-1" aria-labelledby="demo-tabs-tab-1" tabindex="-1" aria-selected="true">Account panel content</div>"#,
        r#"<div role="tabpanel" id="demo-tabs-panel-2" aria-labelledby="demo-tabs-tab-2" tabindex="-1" aria-selected="false" hidden>Password panel content</div>"#,
        r#"</div>"#,
    ]
    .concat();
    assert_eq!(html.to_string(), expected);
}

#[test]
fn snapshot_toast_success() {
    let html = toast(ToastProps {
        category: ToastCategory::Success,
        title: Some("Saved!".to_string()),
        description: Some("Your changes have been saved.".to_string()),
        class: None,
        attrs: AttrMap::new(),
    });
    let expected = [
            r#"<div class="toast" role="status" aria-atomic="true" aria-hidden="false" data-category="success" data-toast data-basecoat-hydrate="toast" data-basecoat-version="0.1">"#,
            r#"<div class="toast-content">"#,
            ICON_SUCCESS,
            r#"<section><h2>Saved!</h2><p>Your changes have been saved.</p></section></div></div>"#,
    ]
    .concat();
    assert_eq!(html.to_string(), expected);
}

#[test]
fn snapshot_tooltip() {
    let html = tooltip(TooltipProps {
        content: "Helpful hint".to_string(),
        side: TooltipSide::Top,
        class: None,
        attrs: AttrMap::new(),
        children: r#"<button type="button" class="btn-outline">Hover me</button>"#.to_string(),
    });
    assert_eq!(
        html.to_string(),
        r#"<span data-tooltip="Helpful hint" data-side="top"><button type="button" class="btn-outline">Hover me</button></span>"#
    );
}
