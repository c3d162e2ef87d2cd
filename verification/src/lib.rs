//! State keeping for minimized windows on a tiling window manager that has
//! no notion of minimizing: a window is parked on a hidden workspace, and a
//! record of it is kept so that it can be brought back to where it was.
//!
//! The library decides and computes; it does no input or output of its own.
//! A caller asks the window manager, runs the tools and reads and writes the
//! store file, and hands the library what came of it.
//!
//! - `record`: the record of a minimized window, and the store of records.
//! - `reconcile`: dropping the records of windows that are gone.
//! - `minimize`, `flow`: minimizing the active window, step by step.
//! - `restore`: bringing windows back.
//! - `preview`: taking the preview of a window.
//! - `parser`, `fields`: reading what the window manager says of a window.
//! - `icons`: the glyph for an application class.
//! - `menu`, `status`: what the menu launcher and the status bar are given.
//! - `command`: the commands for the window manager.
//! - `paths`: where the store and the previews are kept.
//! - `text`, `number`, `filter`: texts, decimal numbers, filtered sequences.

pub mod command;
pub mod fields;
pub mod filter;
pub mod flow;
pub mod icons;
pub mod menu;
pub mod minimize;
pub mod number;
pub mod parser;
pub mod paths;
pub mod preview;
pub mod reconcile;
pub mod record;
pub mod restore;
pub mod status;
pub mod text;
