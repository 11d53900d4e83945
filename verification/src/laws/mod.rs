//! What the operations are for. Each law speaks of what the functions of the library may return,
//! or of what they make of a value, in plain terms: bytes at places, numbers, texts.

pub mod backend;
pub mod bitstream;
pub mod clock;
pub mod config;
pub mod decode;
pub mod demux;
pub mod extra;
pub mod ffi;
pub mod frame;
pub mod gif;
pub mod gpu;
pub mod helper;
pub mod media;
pub mod notify;
pub mod nvdec;
pub mod path;
pub mod pipeline;
pub mod registry;
pub mod text;
pub mod video;
pub mod yuv;
