use basecoat::components::button::{button, ButtonProps, ButtonSize, ButtonVariant};
use basecoat::markup::AttrMap;

/// Canary test: the compound class pattern is `btn-lg-destructive`, not
/// `btn btn-lg btn-destructive`.
#[test]
fn button_lg_destructive_compound_class_and_text() {
    let html = button(ButtonProps {
        variant: ButtonVariant::Destructive,
        size: ButtonSize::Lg,
        class: None,
        attrs: AttrMap::new(),
        children: "Delete".to_string(),
    })
    .to_string();

    assert!(html.contains("btn-lg-destructive"), "Expected class 'btn-lg-destructive' in: {html}");
    assert!(html.contains("Delete"), "Expected text 'Delete' in: {html}");
}
