//! Core of a Hyprland plugin that covers windows hidden from screen capture
//! with a picture, a GIF or a video.

pub mod clock;
pub mod config;
pub mod double;
pub mod extra;
pub mod ffi;
pub mod frame;
pub mod gpu;
pub mod laws;
pub mod media;
pub mod notify;
pub mod path;
pub mod registry;
pub mod text;
pub mod vaapi_helper;

pub use config::{Backend, PlayParams, Settings};
pub use frame::{Frame, FrameData};
pub use registry::Registry;
