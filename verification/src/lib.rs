//! The core of a modal, keyboard-driven file browser for the terminal.
//!
//! A [`window::Window`] holds a grid of [`panel::Panel`]s. Each panel lists one
//! directory and turns key events into changes of its cursor, its selection and
//! its edit buffer, and into work on the disk. The library never touches the
//! disk itself: a panel hands out one [`disk::Request`] at a time and is told
//! the [`disk::Reply`]; everything it decides in between is verified.

pub mod config;
pub mod disk;
pub mod errors;
pub mod guarantees;
pub mod keys;
pub mod panel;
pub mod render;
pub mod paths;
pub mod table;
pub mod tasks;
pub mod text;
pub mod window;

