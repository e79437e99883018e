//! Decision logic of the browser controllers. Each module holds the state a
//! controller keeps and the functions that decide, from that state and an
//! event, what the controller does next; the DOM glue performs the actions.
pub mod keyboard;
pub mod combobox;
pub mod select;
pub mod tabs;
pub mod toast;
pub mod sidebar;
pub mod dialog;
pub mod dismiss;
pub mod dropdown;
pub mod popover;
pub mod hydrate;
