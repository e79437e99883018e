use basecoat::props_derive::{
    apply_meta, extend_field, field_flags, new_field_state, DefaultKind, FieldFlags, PropError,
    PropMeta,
};

fn flags(extend: bool) -> FieldFlags {
    FieldFlags { default: DefaultKind::Required, into: false, extend }
}

#[test]
fn field_without_markers_is_required() {
    let f = field_flags(true, &[]).unwrap();
    assert_eq!(f, FieldFlags { default: DefaultKind::Required, into: false, extend: false });
}

#[test]
fn unnamed_field_is_refused_first() {
    assert_eq!(field_flags(false, &[PropMeta::Other]), Err(PropError::UnnamedField));
}

#[test]
fn markers_set_default_and_setter() {
    let f = field_flags(true, &[PropMeta::Optional, PropMeta::Into]).unwrap();
    assert_eq!(f, FieldFlags { default: DefaultKind::NoneValue, into: true, extend: false });
    let f = field_flags(true, &[PropMeta::Into, PropMeta::DefaultExpr]).unwrap();
    assert_eq!(f.default, DefaultKind::Expr(1));
    let f = field_flags(true, &[PropMeta::Extend]).unwrap();
    assert_eq!(f, FieldFlags { default: DefaultKind::DefaultTrait, into: false, extend: true });
}

#[test]
fn explicit_default_is_not_overridden() {
    let f = field_flags(true, &[PropMeta::DefaultExpr, PropMeta::Optional]).unwrap();
    assert_eq!(f.default, DefaultKind::Expr(0));
    let f = field_flags(true, &[PropMeta::DefaultExpr, PropMeta::Extend]).unwrap();
    assert_eq!(f.default, DefaultKind::Expr(0));
    assert!(f.extend);
    // a later default still replaces an earlier optional
    let f = field_flags(true, &[PropMeta::Optional, PropMeta::Default]).unwrap();
    assert_eq!(f.default, DefaultKind::DefaultTrait);
}

#[test]
fn unknown_marker_reports_its_position() {
    assert_eq!(
        field_flags(true, &[PropMeta::Into, PropMeta::Other, PropMeta::Other]),
        Err(PropError::UnknownMarker(1))
    );
    let mut st = new_field_state();
    assert_eq!(apply_meta(&mut st, PropMeta::Other, 3), Err(PropError::UnknownMarker(3)));
    assert_eq!(st, new_field_state());
    assert_eq!(apply_meta(&mut st, PropMeta::Default, 0), Ok(()));
    assert!(st.has_default);
}

#[test]
fn at_most_one_extend_field() {
    assert_eq!(extend_field(&[flags(false), flags(true), flags(false)]), Ok(Some(1)));
    assert_eq!(extend_field(&[flags(false)]), Ok(None));
    assert_eq!(extend_field(&[]), Ok(None));
    assert_eq!(extend_field(&[flags(true), flags(false), flags(true)]), Err(PropError::MultipleExtend));
}
