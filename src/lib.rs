//! Wallpaper-driven palette propagation: the text, color and decision logic
//! of a daemon that watches a wallpaper configuration, derives a two-color
//! palette from the active image and writes it into several configuration
//! formats.

pub mod cli;
pub mod color;
pub mod kitty;
pub mod palette;
pub mod processor;
pub mod render;
pub mod text;
pub mod watcher;
pub mod widgets;
