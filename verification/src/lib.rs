//! Halo: the logic of an interactive terminal shell front-end.
//!
//! The shell takes typed commands, runs them as child processes, and streams
//! what they print into a scrollable log while the input line stays
//! editable. This library holds what the shell decides, as verified code;
//! a program around it does the reading, the drawing and the starting of
//! processes.
//!
//! The heart is the running of one command at a time:
//! - [`stream`] turns each output stream of the process into line updates;
//! - [`supervisor`] decides how the command ends, and emits the one terminal
//!   update;
//! - [`command`] holds the values that flow, and the manager with the single
//!   handle by which the running command is cancelled.
//!
//! Around it stand the state of the shell ([`state`]), what a submitted line
//! does ([`app`]), what keys do ([`event`]), completion ([`completion`]),
//! themes and configuration ([`theme`], [`config`]), what the screen shows
//! ([`ui`], [`layout`]), and helpers for texts and paths ([`text`],
//! [`paths`]).

pub mod app;
pub mod command;
pub mod completion;
pub mod config;
pub mod event;
pub mod layout;
pub mod paths;
pub mod state;
pub mod stream;
pub mod supervisor;
pub mod text;
pub mod theme;
pub mod ui;
