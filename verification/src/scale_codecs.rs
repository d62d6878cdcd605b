//! Machine words as they go over the wire.
use vstd::prelude::*;
use vstd::std_specs::convert::FromSpec;
use vstd::std_specs::convert::FromSpecImpl;

verus! {

/// A machine word in the width that it has on the wire: 64 bits, whatever the
/// machine.
#[derive(Clone, Copy, Debug, PartialEq, Eq, Structural)]
pub struct USizeCodec(pub u64);

impl From<USizeCodec> for usize {
    /// The word that was sent; where the machine's word is narrower, its low
    /// bits.
    fn from(value: USizeCodec) -> (r: usize) {
        value.0 as usize
    }
}

impl FromSpecImpl<USizeCodec> for usize {
    open spec fn obeys_from_spec() -> bool {
        true
    }

    open spec fn from_spec(value: USizeCodec) -> usize {
        value.0 as usize
    }
}

impl From<&usize> for USizeCodec {
    /// The word to send.
    fn from(value: &usize) -> (r: USizeCodec) {
        USizeCodec(*value as u64)
    }
}

impl FromSpecImpl<&usize> for USizeCodec {
    open spec fn obeys_from_spec() -> bool {
        true
    }

    open spec fn from_spec(value: &usize) -> USizeCodec {
        USizeCodec(*value as u64)
    }
}

/// A word that is sent and received comes back as it was.
pub proof fn lemma_usize_round_trip(n: usize)
    ensures
        <usize as FromSpec<USizeCodec>>::from_spec(
            <USizeCodec as FromSpec<&usize>>::from_spec(&n),
        ) == n,
{
}

} // verus!
