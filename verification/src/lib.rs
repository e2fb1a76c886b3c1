//! Decision logic of a small network camera: frame geometry, configuration,
//! RTSP streaming, alarms and the web interface.
//!
//! Everything here is plain data in and plain data out. Devices, sockets,
//! clocks and threads belong to the program around it.

pub mod ai;
pub mod camera;
pub mod config;
pub mod gb28181_alarm;
pub mod gb28181_date;
pub mod h264;
pub mod onvif_alarm;
pub mod service;
pub mod streaming;
pub mod text;
pub mod text_map;
pub mod watermark;
pub mod web;
