//! What the widgets of the viewer ask for.

pub mod action;
pub mod overlay;

pub use self::action::Action;
