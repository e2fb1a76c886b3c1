//! RTSP streaming of H.264 video.

pub mod auth;
pub mod base64;
pub mod delivery;
pub mod dialogue;
pub mod reply;
pub mod request;
pub mod rtp;
pub mod rtsp;
pub mod session;
