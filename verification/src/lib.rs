//! Command dispatch and hierarchical navigation engine.
//!
//! The library turns raw key events into abstract actions through a
//! configurable, multi-stroke keybinding table, and tracks a logical
//! "current location" inside a dynamically mutable dock hierarchy:
//! a three-level cursor (surface, node, tab) over a freshly derived
//! snapshot of the hierarchy, repaired whenever the hierarchy changes
//! out from under it, and a simpler two-level focus tree for widget
//! level keyboard focus.

pub mod acts;
pub mod addresses;
pub mod character;
pub mod binding;
pub mod command;
pub mod cursor;
pub mod dispatch;
pub mod dock;
pub mod focus;
pub mod identifier;
pub mod movement;
pub mod observer;
pub mod table;
pub mod text;
