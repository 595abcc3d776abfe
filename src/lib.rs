//! The help overlay of a terminal file browser: a scrollable viewport,
//! a small markup renderer and the state that reacts to user actions.
pub mod help_states;
pub mod markup;
pub mod screen_area;
