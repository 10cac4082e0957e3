//! Meeting recording decisions: transcript merging, zoom detection, recording state.
pub mod commands;
pub mod finalize;
pub mod meeting;
pub mod screen_capture;
pub mod text;
pub mod transcript;
pub mod zoom_detection;
