//! The core of a numbered-tiles minigame: players click tiles in
//! ascending order against a countdown, across difficulty levels and
//! localized menus. This crate holds the session, menu, round and timer
//! state machines, the layout geometry, and the config persistence, all
//! with verified contracts; windowing, rendering and file I/O live in
//! the surrounding application, which feeds the core plain values.

pub mod config;
pub mod game;
pub mod level;
pub mod localization;
pub mod menu;
pub mod player;
pub mod timer;
pub mod utils;
