//! Planning and decision logic for duplicating a Herdr workspace folder into a
//! sibling directory and opening the copy as a new Herdr workspace.

pub mod cli;
pub mod context;
pub mod json;
pub mod copy;
pub mod herdr_cli;
pub mod path;
pub mod text;
pub mod ui;
