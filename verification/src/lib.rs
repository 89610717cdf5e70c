//! The logic of a terminal media viewer: the Kitty graphics protocol, the video
//! layout and status row, the keyboard controls, and the decisions of the
//! playback loops. Everything here works on plain values; reading files, talking
//! to devices and writing to the terminal is left to the program around it.
pub mod ansi;
pub mod audio;
pub mod base64_text;
pub mod controls;
pub mod diacritics;
pub mod frames;
pub mod image_ids;
pub mod image_viewer;
pub mod kitty;
pub mod kitty_reader;
pub mod media;
pub mod output;
pub mod player;
pub mod pump;
pub mod render;
pub mod sample_queue;
pub mod setup;
pub mod status;
pub mod streams;
pub mod terminal_geometry;
pub mod text;
pub mod timestamp;
pub mod tmux;
pub mod video_layout;
