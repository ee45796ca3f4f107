//! Verified core of an image compression desktop tool: the `.sbmc` decoded-image
//! cache format, cache file naming, pixel channel handling, and the state kept for
//! dropped files and their compression results.

pub mod cache_path;
pub mod dropzone;
pub mod frame_list;
pub mod load_state;
pub mod decode;
pub mod path_formatter;
pub mod path_key;
pub mod path_text;
pub mod pixels;
pub mod preview;
pub mod sbmc;
pub mod theme;
pub mod utilities;
