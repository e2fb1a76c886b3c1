//! Camera frames and the requests that steer the encoder.

use vstd::prelude::*;

pub mod downscale;
pub mod pictures;
pub mod source;
pub mod substream;
pub mod v4l2;
pub mod v4l2_capture;

verus! {

/// Consumes a pending on-demand IDR request: reads and clears the flag the
/// encoder checks before encoding a frame.
pub fn consume_idr_request(flag: &mut bool) -> (pending: bool)
    ensures
        pending == *old(flag),
        *final(flag) == false,
{
    let pending = *flag;
    *flag = false;
    pending
}

/// Raises the on-demand IDR request.
pub fn raise_idr_request(flag: &mut bool)
    ensures
        *final(flag) == true,
{
    *flag = true;
}

} // verus!
