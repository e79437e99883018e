//! The rules of `#[derive(BasecoatProps)]`: how the `#[prop(..)]` markers of
//! a field decide its default and setter, and which struct shapes are
//! accepted. Token generation itself happens in the macro front end.
use vstd::prelude::*;

verus! {

/// One marker inside `#[prop(..)]`.
#[derive(Clone, Copy, Debug, PartialEq, Eq, Structural)]
pub enum PropMeta {
    /// `default`
    Default,
    /// `default = expr`
    DefaultExpr,
    /// `into`
    Into,
    /// `optional`
    Optional,
    /// `extend`
    Extend,
    /// anything else
    Other,
}

/// What a field falls back to when the builder does not set it.
#[derive(Clone, Copy, Debug, PartialEq, Eq, Structural)]
pub enum DefaultKind {
    /// No fallback: `build()` panics.
    Required,
    /// `Default::default()`.
    DefaultTrait,
    /// `None`.
    NoneValue,
    /// The expression of the marker at this position.
    Expr(usize),
}

/// The decisions taken for one field.
#[derive(Clone, Copy, Debug, PartialEq, Eq, Structural)]
pub struct FieldFlags {
    pub default: DefaultKind,
    /// The setter takes `impl Into<T>`.
    pub into: bool,
    /// The field is the catch-all attribute map.
    pub extend: bool,
}

/// Markers seen so far on a field.
#[derive(Clone, Copy, Debug, PartialEq, Eq, Structural)]
pub struct FieldState {
    pub flags: FieldFlags,
    /// An explicit `default` marker was seen; `optional` and `extend` no
    /// longer change the fallback.
    pub has_default: bool,
}

/// Why a props struct or field is refused.
#[derive(Clone, Copy, Debug, PartialEq, Eq, Structural)]
pub enum PropError {
    /// A field without a name.
    UnnamedField,
    /// The marker at this position is not one of the known ones.
    UnknownMarker(usize),
    /// More than one field is marked `extend`.
    MultipleExtend,
}

/// The state before any marker: required, plain setter, not `extend`.
pub open spec fn initial_state() -> FieldState {
    FieldState {
        flags: FieldFlags { default: DefaultKind::Required, into: false, extend: false },
        has_default: false,
    }
}

/// The effect of marker `m` (at position `i`) on the state: `default` and
/// `default = expr` set the fallback and lock it; `optional` falls back to
/// `None` and `extend` to `Default::default()` unless locked; `into` and
/// `extend` set their flags.
pub open spec fn meta_step(st: FieldState, m: PropMeta, i: usize) -> FieldState {
    match m {
        PropMeta::Default => FieldState {
            flags: FieldFlags { default: DefaultKind::DefaultTrait, ..st.flags },
            has_default: true,
        },
        PropMeta::DefaultExpr => FieldState {
            flags: FieldFlags { default: DefaultKind::Expr(i), ..st.flags },
            has_default: true,
        },
        PropMeta::Into => FieldState { flags: FieldFlags { into: true, ..st.flags }, ..st },
        PropMeta::Optional => if st.has_default {
            st
        } else {
            FieldState { flags: FieldFlags { default: DefaultKind::NoneValue, ..st.flags }, ..st }
        },
        PropMeta::Extend => FieldState {
            flags: FieldFlags {
                extend: true,
                default: if st.has_default {
                    st.flags.default
                } else {
                    DefaultKind::DefaultTrait
                },
                ..st.flags
            },
            ..st
        },
        PropMeta::Other => st,
    }
}

pub fn new_field_state() -> (r: FieldState)
    ensures
        r == initial_state(),
{
    FieldState {
        flags: FieldFlags { default: DefaultKind::Required, into: false, extend: false },
        has_default: false,
    }
}

/// Applies marker `m`, found at position `i` among the field's markers.
/// An unknown marker is refused and leaves the state unchanged.
pub fn apply_meta(st: &mut FieldState, m: PropMeta, i: usize) -> (r: Result<(), PropError>)
    ensures
        m == PropMeta::Other ==> r == Err::<(), PropError>(PropError::UnknownMarker(i)) && *final(st)
            == *old(st),
        m != PropMeta::Other ==> r is Ok && *final(st) == meta_step(*old(st), m, i),
{
    match m {
        PropMeta::Default => {
            st.has_default = true;
            st.flags.default = DefaultKind::DefaultTrait;
        },
        PropMeta::DefaultExpr => {
            st.has_default = true;
            st.flags.default = DefaultKind::Expr(i);
        },
        PropMeta::Into => {
            st.flags.into = true;
        },
        PropMeta::Optional => {
            if !st.has_default {
                st.flags.default = DefaultKind::NoneValue;
            }
        },
        PropMeta::Extend => {
            st.flags.extend = true;
            if !st.has_default {
                st.flags.default = DefaultKind::DefaultTrait;
            }
        },
        PropMeta::Other => {
            return Err(PropError::UnknownMarker(i));
        },
    }
    Ok(())
}

/// The state after all markers, or the position of the first unknown one.
pub open spec fn fold_metas(metas: Seq<PropMeta>) -> Result<FieldState, usize>
    decreases metas.len(),
{
    if metas.len() == 0 {
        Ok(initial_state())
    } else {
        match fold_metas(metas.drop_last()) {
            Err(e) => Err(e),
            Ok(st) => if metas.last() == PropMeta::Other {
                Err((metas.len() - 1) as usize)
            } else {
                Ok(meta_step(st, metas.last(), (metas.len() - 1) as usize))
            },
        }
    }
}

/// The decisions for a field from its markers, in order: a field without a
/// name is refused first, then the first unknown marker.
pub fn field_flags(named: bool, metas: &[PropMeta]) -> (r: Result<FieldFlags, PropError>)
    ensures
        !named ==> r == Err::<FieldFlags, PropError>(PropError::UnnamedField),
        named ==> r == match fold_metas(metas@) {
            Err(i) => Err(PropError::UnknownMarker(i)),
            Ok(st) => Ok(st.flags),
        },
{
    if !named {
        return Err(PropError::UnnamedField);
    }
    let mut st = new_field_state();
    let mut i: usize = 0;
    while i < metas.len()
        invariant
            named,
            i <= metas@.len(),
            fold_metas(metas@.take(i as int)) == Ok::<FieldState, usize>(st),
        decreases metas.len() - i,
    {
        assert(metas@.take(i + 1).drop_last() =~= metas@.take(i as int));
        if let Err(e) = apply_meta(&mut st, metas[i], i) {
            proof {
                lemma_fold_error_sticks(metas@, i as int);
            }
            return Err(e);
        }
        i = i + 1;
    }
    assert(metas@.take(metas.len() as int) =~= metas@);
    Ok(st.flags)
}

proof fn lemma_fold_error_sticks(metas: Seq<PropMeta>, i: int)
    requires
        0 <= i < metas.len(),
        fold_metas(metas.take(i + 1)) == Err::<FieldState, usize>(i as usize),
    ensures
        fold_metas(metas) == Err::<FieldState, usize>(i as usize),
    decreases metas.len() - i,
{
    if metas.len() == i + 1 {
        assert(metas.take(i + 1) =~= metas);
    } else {
        assert(metas.drop_last().take(i + 1) =~= metas.take(i + 1));
        lemma_fold_error_sticks(metas.drop_last(), i);
    }
}

/// The one `extend` field of a struct, if any; refused when there are
/// several.
pub open spec fn extend_count(fields: Seq<FieldFlags>) -> nat
    decreases fields.len(),
{
    if fields.len() == 0 {
        0
    } else {
        extend_count(fields.drop_last()) + if fields.last().extend {
            1nat
        } else {
            0nat
        }
    }
}

pub fn extend_field(fields: &[FieldFlags]) -> (r: Result<Option<usize>, PropError>)
    ensures
        extend_count(fields@) > 1 ==> r == Err::<Option<usize>, PropError>(
            PropError::MultipleExtend,
        ),
        extend_count(fields@) <= 1 ==> (r matches Ok(found) && match found {
            Some(j) => j < fields@.len() && fields@[j as int].extend,
            None => forall|k: int| 0 <= k < fields@.len() ==> !(#[trigger] fields@[k]).extend,
        }),
{
    let mut count: usize = 0;
    let mut first: Option<usize> = None;
    let mut i: usize = 0;
    while i < fields.len()
        invariant
            i <= fields@.len(),
            count == extend_count(fields@.take(i as int)),
            count <= i,
            match first {
                Some(j) => j < i && fields@[j as int].extend,
                None => forall|k: int| 0 <= k < i ==> !(#[trigger] fields@[k]).extend,
            },
            count == 0 <==> first is None,
        decreases fields.len() - i,
    {
        assert(fields@.take(i + 1).drop_last() =~= fields@.take(i as int));
        if fields[i].extend {
            count = count + 1;
            if first.is_none() {
                first = Some(i);
            }
        }
        i = i + 1;
    }
    assert(fields@.take(fields.len() as int) =~= fields@);
    if count > 1 {
        Err(PropError::MultipleExtend)
    } else {
        Ok(first)
    }
}

} // verus!
