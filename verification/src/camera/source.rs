//! Where frames come from.

use vstd::prelude::*;

verus! {

/// Why there is no frame.
#[derive(Debug)]
pub enum CameraError {
    /// The camera is set up wrongly.
    Config(String),
    /// There is no such device.
    DeviceNotFound(String),
    /// The system reported an error.
    Io(String),
    /// The source of frames is gone.
    Disconnected(String),
    /// The encoder failed.
    Encoder(String),
}

/// A source of raw YUV frames.
pub trait FrameProducer {
    /// The next frame. Waits until there is one.
    fn next_yuv_frame(&mut self) -> Result<Vec<u8>, CameraError>;

    /// Width and height of the frames.
    fn resolution(&self) -> (u32, u32);

    /// Frames per second.
    fn fps(&self) -> u32;
}

} // verus!
