//! Verified core of an image viewer: the image cache and the decisions taken
//! on it, key routing, file-format and EXIF helpers, image geometry, edit
//! history, wallpaper settings files, preferences and text utilities.
pub mod cache;
pub mod chars;
pub mod clipboard;
pub mod config;
pub mod formats;
pub mod grid;
pub mod history;
pub mod imaging;
pub mod input;
pub mod keybinds;
pub mod loader;
pub mod messages;
pub mod nav;
pub mod numfmt;
pub mod paths;
pub mod session;
pub mod strings;
pub mod text;
pub mod toolbar;
pub mod tools;
pub mod wallpaper;
