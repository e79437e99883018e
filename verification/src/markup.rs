//! Rendered HTML fragments and the small pieces every renderer is built
//! from: extra attributes, optional attributes and class lists.
use vstd::prelude::*;

use crate::text::{attr_escaped, escape_attr};

verus! {

/// A rendered HTML fragment.
pub struct Markup {
    pub html: String,
}

impl View for Markup {
    type V = Seq<char>;

    open spec fn view(&self) -> Seq<char> {
        self.html@
    }
}

impl Markup {
    pub fn from_string(html: String) -> (r: Markup)
        ensures
            r@ == html@,
    {
        Markup { html }
    }

    pub fn as_str(&self) -> (r: &str)
        ensures
            r@ == self@,
    {
        self.html.as_str()
    }

    /// The fragment as a `String`.
    pub fn to_string(&self) -> (r: String)
        ensures
            r@ == self@,
    {
        self.html.clone()
    }
}

/// One extra attribute: `name="value"`, or a bare `name` without value.
pub struct AttrEntry {
    pub name: String,
    pub value: Option<String>,
}

/// Extra attributes passed through to the root element, in order.
pub struct AttrMap {
    pub entries: Vec<AttrEntry>,
}

/// How one extra attribute renders: a space, the name, and for a valued
/// attribute `="…"` with the value escaped.
pub open spec fn entry_text(e: AttrEntry) -> Seq<char> {
    match e.value {
        Some(v) => " "@ + e.name@ + "=\""@ + attr_escaped(v@) + "\""@,
        None => " "@ + e.name@,
    }
}

/// All extra attributes rendered in order.
pub open spec fn attrs_text(entries: Seq<AttrEntry>) -> Seq<char>
    decreases entries.len(),
{
    if entries.len() == 0 {
        Seq::empty()
    } else {
        attrs_text(entries.drop_last()) + entry_text(entries.last())
    }
}

impl AttrMap {
    pub fn new() -> (r: AttrMap)
        ensures
            r.entries@.len() == 0,
    {
        AttrMap { entries: Vec::new() }
    }

    /// Renders the attributes, each preceded by a space.
    pub fn render(&self) -> (r: String)
        ensures
            r@ == attrs_text(self.entries@),
    {
        let mut out = String::new();
        let mut i: usize = 0;
        while i < self.entries.len()
            invariant
                i <= self.entries@.len(),
                out@ == attrs_text(self.entries@.take(i as int)),
            decreases self.entries.len() - i,
        {
            let e = &self.entries[i];
            let ghost before = out@;
            out.append(" ");
            out.append(e.name.as_str());
            match &e.value {
                Some(v) => {
                    out.append("=\"");
                    let esc = escape_attr(v.as_str());
                    out.append(esc.as_str());
                    out.append("\"");
                    assert(out@ =~= before + entry_text(*e));
                },
                None => {
                    assert(out@ =~= before + entry_text(*e));
                },
            }
            assert(self.entries@.take(i + 1).drop_last() =~= self.entries@.take(i as int));
            i = i + 1;
        }
        assert(self.entries@.take(self.entries.len() as int) =~= self.entries@);
        out
    }
}

/// `prefix` + escaped `v` + `"` when `v` is present, nothing otherwise
/// (`prefix` is e.g. ` name="`).
pub open spec fn opt_attr_text(prefix: Seq<char>, v: Option<String>) -> Seq<char> {
    match v {
        Some(x) => prefix + attr_escaped(x@) + "\""@,
        None => Seq::empty(),
    }
}

pub fn opt_attr(prefix: &str, v: &Option<String>) -> (r: String)
    ensures
        r@ == opt_attr_text(prefix@, *v),
{
    match v {
        Some(x) => {
            let mut s = String::from_str(prefix);
            let e = escape_attr(x.as_str());
            s.append(e.as_str());
            s.append("\"");
            s
        },
        None => String::new(),
    }
}

/// `text` when `cond`, nothing otherwise.
pub open spec fn flag_text(cond: bool, text: Seq<char>) -> Seq<char> {
    if cond {
        text
    } else {
        Seq::empty()
    }
}

pub fn flag(cond: bool, text: &str) -> (r: String)
    ensures
        r@ == flag_text(cond, text@),
{
    if cond {
        String::from_str(text)
    } else {
        String::new()
    }
}

/// A present, non-empty string.
pub open spec fn nonempty(v: Option<String>) -> bool {
    v is Some && v->0@.len() > 0
}

/// ` class="…"` for a present, non-empty class (inserted as given), nothing
/// otherwise.
pub open spec fn class_attr_text(class: Option<String>) -> Seq<char> {
    if nonempty(class) {
        " class=\""@ + class->0@ + "\""@
    } else {
        Seq::empty()
    }
}

pub fn class_attr(class: &Option<String>) -> (r: String)
    ensures
        r@ == class_attr_text(*class),
{
    match class {
        Some(c) => if c.as_str().unicode_len() > 0 {
            let mut s = String::from_str(" class=\"");
            s.append(c.as_str());
            s.append("\"");
            s
        } else {
            String::new()
        },
        None => String::new(),
    }
}

/// A class list: `base`, then the caller's `extra` classes when present and
/// non-empty, separated by one space (no leading space when `base` is
/// empty).
pub open spec fn with_extra(base: Seq<char>, extra: Option<String>) -> Seq<char> {
    if !nonempty(extra) {
        base
    } else if base.len() == 0 {
        extra->0@
    } else {
        base + " "@ + extra->0@
    }
}

pub fn class_with_extra(base: &str, extra: &Option<String>) -> (r: String)
    ensures
        r@ == with_extra(base@, *extra),
{
    let mut s = String::from_str(base);
    match extra {
        Some(e) => if e.as_str().unicode_len() > 0 {
            if base.unicode_len() == 0 {
                return e.clone();
            }
            s.append(" ");
            s.append(e.as_str());
        },
        None => {},
    }
    s
}

/// The value of an optional string, or `fallback`.
pub open spec fn or_text(v: Option<String>, fallback: Seq<char>) -> Seq<char> {
    match v {
        Some(x) => x@,
        None => fallback,
    }
}

pub fn or_default(v: &Option<String>, fallback: &str) -> (r: String)
    ensures
        r@ == or_text(*v, fallback@),
{
    match v {
        Some(x) => x.clone(),
        None => String::from_str(fallback),
    }
}

} // verus!
