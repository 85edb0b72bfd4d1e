//! Editing core of a modal text editor: buffers over a rope, cursor motions,
//! operator composition, a modal state machine and a colon-command parser.

pub mod text;
pub mod buffer;
pub mod commands;
pub mod action;
pub mod motion;
pub mod state;
