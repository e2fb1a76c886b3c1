//! The web interface.

pub mod api;
pub mod documents;
pub mod json;
pub mod models;
pub mod server;
pub mod snapshot;
pub mod upload;
pub mod video_stream;
