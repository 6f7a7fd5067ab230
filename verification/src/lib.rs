//! Core of a terminal client for a streaming service: the cryptographic
//! request codec, session and response-cache policies, the API request
//! builders with failure classification, and the playback engine.
//!
//! All logic lives here, verified; network, disk and audio I/O are left to
//! the surrounding application.

pub mod cache;
pub mod client;
pub mod codec;
pub mod event;
pub mod text;
pub mod player;
pub mod session;
pub mod typ;
pub mod ui;

use vstd::prelude::*;

verus! {

/// Padded length of a message under PKCS7 with the given block size:
/// the next multiple of `block` strictly above `len`.
pub fn pkcs7_padded_len(len: usize, block: usize) -> (r: usize)
    requires
        block > 0,
        block & ((block - 1) as usize) == 0,
        len + block <= usize::MAX,
    ensures
        r == len + (block - (len % block)),
        r % block == 0,
        len < r <= len + block,
{
    let r = len + (block - len % block);
    proof {
        assert(len % block == 0 ==> r % block == 0) by (nonlinear_arith)
            requires
                block > 0,
                r == len + block - (len % block),
        ;
        assert(len % block != 0 ==> r % block == 0) by (nonlinear_arith)
            requires
                block > 0,
                r == len + block - (len % block),
        ;
    }
    r
}

} // verus!
