//! A payload: up to 32 bytes read from or written to the chip's queues.

use vstd::prelude::*;
use vstd::slice::slice_to_vec;

verus! {

/// Most bytes that one payload holds.
pub const MAX_PAYLOAD: usize = 32;

/// The bytes of one received packet.
#[derive(Debug)]
pub struct Payload {
    data: Vec<u8>,
}

impl View for Payload {
    type V = Seq<u8>;

    closed spec fn view(&self) -> Seq<u8> {
        self.data@
    }
}

impl Payload {
    #[verifier::type_invariant]
    spec fn bounded(&self) -> bool {
        self.data@.len() <= MAX_PAYLOAD
    }

    /// A payload that holds a copy of `source`.
    pub fn new(source: &[u8]) -> (payload: Payload)
        requires
            source@.len() <= MAX_PAYLOAD,
        ensures
            payload@ == source@,
    {
        Payload { data: slice_to_vec(source) }
    }

    /// How many bytes the payload holds, 32 at most.
    pub fn len(&self) -> (n: usize)
        ensures
            n == self@.len(),
            n <= MAX_PAYLOAD,
    {
        proof {
            use_type_invariant(self);
        }
        self.data.len()
    }

    /// The payload's bytes.
    pub fn as_slice(&self) -> (bytes: &[u8])
        ensures
            bytes@ == self@,
            bytes@.len() <= MAX_PAYLOAD,
    {
        proof {
            use_type_invariant(self);
        }
        self.data.as_slice()
    }
}

} // verus!
