//! HTML renderers of the components. Each takes a props struct of plain
//! values and returns the rendered fragment; the contract of each states
//! the exact text produced.
pub mod alert;
pub mod badge;
pub mod button;
pub mod card;
pub mod input;
pub mod label;
pub mod separator;
pub mod sub;
pub mod textarea;
pub mod tooltip;
pub mod toast;
pub mod dialog;
pub mod tabs;
pub mod combobox;
pub mod dropdown;
pub mod popover;
pub mod sidebar;
pub mod select;
