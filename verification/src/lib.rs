//! Frame-sampling logic of a video transcoder that keeps one decoded frame per
//! thirty video packets, re-encodes it as HEVC and stores it as
//! `<dir>/frame<N>.hevc`.

pub mod decimal;

pub mod frame_file;
pub mod pipeline;
pub mod encoding;
