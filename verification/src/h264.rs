//! H.264 units as the camera hands them out.

use vstd::prelude::*;

verus! {

/// One network abstraction layer unit, without start code.
#[derive(Debug)]
pub struct Nalu {
    pub nalu_type: u8,
    pub data: Vec<u8>,
    pub is_idr: bool,
    pub is_sps: bool,
    pub is_pps: bool,
    pub is_aud: bool,
}

/// The units of one coded picture.
#[derive(Debug)]
pub struct AccessUnit {
    pub nalus: Vec<Nalu>,
    pub is_key_frame: bool,
}

} // verus!
