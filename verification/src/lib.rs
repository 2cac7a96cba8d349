//! Core logic of the `imgvwr` image viewer: key bindings, directory
//! navigation, viewport rotation, the software blit that places a rendered
//! image into a window buffer, and the layered configuration.

pub mod keybinds;
pub mod navigator;
pub mod paths;
pub mod text;
pub mod config;
pub mod completions;
pub mod renderer;
pub mod settings;
pub mod viewport;
pub mod events;
pub mod logging;
pub mod window;
