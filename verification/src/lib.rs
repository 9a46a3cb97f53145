//! Grid simulation for a single-player snake game.
//!
//! The library holds the game's own logic: grid-based movement and
//! collision, food spawning, growth and score tracking, and the score
//! line shown by the UI.  Rendering, windowing, input devices and the
//! frame scheduler are hosts around it and stay outside.

pub mod components;
pub mod resources;
pub mod systems;
pub mod ui;
