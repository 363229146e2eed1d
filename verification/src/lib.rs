//! Core of a terminal feed reader: the navigation state machine that tracks
//! which view is active and where its cursor sits, and the pure rendering
//! engine that turns a feed model plus that state into a sequence of abstract
//! terminal draw operations, including a markup-to-text transformer for
//! article bodies (word wrap, link numbering, style toggling).
//!
//! Feed acquisition, parsing and the real terminal are external collaborators:
//! the shell around this library feeds it a fully parsed feed model and
//! symbolic input events, and executes the draw operations it returns.

pub mod draw;
pub mod markup;
pub mod model;
pub mod nav;
pub mod text;
pub mod ui;
