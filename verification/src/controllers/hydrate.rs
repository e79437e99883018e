//! Hydration: the scan over `[data-basecoat-hydrate]` elements that wires
//! each one to its controller exactly once.
use vstd::prelude::*;

use crate::text::{attr_equals, attr_is, str_eq};

verus! {

/// The controllers hydration dispatches to.
#[derive(Clone, Copy, Debug, PartialEq, Eq, Structural)]
pub enum Controller {
    Dialog,
    Tabs,
    Toast,
    Dropdown,
    Popover,
    Select,
    Sidebar,
    Combobox,
}

/// What hydration does with one element.
#[derive(Clone, Copy, Debug, PartialEq, Eq, Structural)]
pub enum HydrateStep {
    /// Already wired (`data-basecoat-hydrated="true"`): leave it.
    Skip,
    /// No `data-basecoat-hydrate` name: leave it.
    NoName,
    /// Attach `controller`, then mark the element hydrated.
    Attach(Controller),
    /// Unknown controller name: warn and leave it unmarked.
    Unknown,
}

/// The controller registered under `name`.
pub open spec fn controller_for(name: Seq<char>) -> Option<Controller> {
    if name == "dialog"@ {
        Some(Controller::Dialog)
    } else if name == "tabs"@ {
        Some(Controller::Tabs)
    } else if name == "toast"@ {
        Some(Controller::Toast)
    } else if name == "dropdown"@ {
        Some(Controller::Dropdown)
    } else if name == "popover"@ {
        Some(Controller::Popover)
    } else if name == "select"@ {
        Some(Controller::Select)
    } else if name == "sidebar"@ {
        Some(Controller::Sidebar)
    } else if name == "combobox"@ {
        Some(Controller::Combobox)
    } else {
        None
    }
}

pub fn lookup_controller(name: &str) -> (r: Option<Controller>)
    ensures
        r == controller_for(name@),
{
    if str_eq(name, "dialog") {
        Some(Controller::Dialog)
    } else if str_eq(name, "tabs") {
        Some(Controller::Tabs)
    } else if str_eq(name, "toast") {
        Some(Controller::Toast)
    } else if str_eq(name, "dropdown") {
        Some(Controller::Dropdown)
    } else if str_eq(name, "popover") {
        Some(Controller::Popover)
    } else if str_eq(name, "select") {
        Some(Controller::Select)
    } else if str_eq(name, "sidebar") {
        Some(Controller::Sidebar)
    } else if str_eq(name, "combobox") {
        Some(Controller::Combobox)
    } else {
        None
    }
}

/// The element's version is not the expected `"0.1"`: hydration warns but
/// carries on.
pub fn version_mismatch(version: &Option<String>) -> (r: bool)
    ensures
        r == !attr_is(*version, "0.1"@),
{
    !attr_equals(version, "0.1")
}

/// The decision for one element from its `data-basecoat-hydrated` and
/// `data-basecoat-hydrate` attributes.
pub open spec fn step_for(hydrated: Option<String>, name: Option<String>) -> HydrateStep {
    if attr_is(hydrated, "true"@) {
        HydrateStep::Skip
    } else {
        match name {
            None => HydrateStep::NoName,
            Some(n) => match controller_for(n@) {
                Some(c) => HydrateStep::Attach(c),
                None => HydrateStep::Unknown,
            },
        }
    }
}

pub fn hydrate_step(hydrated: &Option<String>, name: &Option<String>) -> (r: HydrateStep)
    ensures
        r == step_for(*hydrated, *name),
{
    if attr_equals(hydrated, "true") {
        return HydrateStep::Skip;
    }
    match name {
        None => HydrateStep::NoName,
        Some(n) => match lookup_controller(n.as_str()) {
            Some(c) => HydrateStep::Attach(c),
            None => HydrateStep::Unknown,
        },
    }
}

/// Hydration is idempotent: an element attached once is marked
/// `data-basecoat-hydrated="true"`, and an element so marked is skipped
/// by every later scan.
pub proof fn lemma_hydrate_idempotent(name: Option<String>, marked: String)
    requires
        marked@ == "true"@,
    ensures
        step_for(Some(marked), name) == HydrateStep::Skip,
{
}

} // verus!
