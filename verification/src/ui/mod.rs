//! User interface: what elements are, how they are laid out, hit and drawn, and the
//! particles that are drawn over them.

pub mod components;
pub mod input;
pub mod layout;
pub mod panel_base;
pub mod particles;
pub mod render;
