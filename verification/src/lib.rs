//! Client-side engine of a reverse-tunnel protocol: a framed wire codec,
//! a stateful stream-cipher codec, and the control-channel state machine
//! that drives login, proxy announcement and work connections.

use vstd::prelude::*;

pub mod bytes;
pub mod config;
pub mod control;
pub mod crypto;
pub mod json;
pub mod msg;

verus! {

/// Size in bytes of a wire message header: one type tag plus a big-endian
/// 64-bit body length.
pub const MSG_HEADER_SIZE: usize = 9;

/// Protocol version string sent in the login message.
pub fn frp_version() -> (s: &'static str)
    ensures
        s@ == "0.44.0"@,
{
    "0.44.0"
}

} // verus!
