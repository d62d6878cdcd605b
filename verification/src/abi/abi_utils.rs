//! Selectors from names.
use vstd::prelude::*;
use vstd::string::StringSliceAdditionalSpecFns;
use crate::primitives::{EntryPointSelector, Felt};

verus! {

/// The Starknet variant of Keccak-256 of a byte string: the digest with its
/// six highest bits cleared, read as a big-endian number.
pub uninterp spec fn starknet_keccak(data: Seq<u8>) -> nat;

/// Calls `cairo_lang_starknet::contract::starknet_keccak` and splits the
/// number that it gives into the two halves of a field element.
#[verifier::external_body]
fn keccak_felt(data: &[u8]) -> (r: Felt)
    ensures
        r.value() == starknet_keccak(data@),
{
    let bytes = cairo_lang_starknet::contract::starknet_keccak(data).to_bytes_be();
    let mut buf = [0u8; 32];
    buf[32 - bytes.len()..].copy_from_slice(&bytes);
    let mut hi = [0u8; 16];
    let mut lo = [0u8; 16];
    hi.copy_from_slice(&buf[..16]);
    lo.copy_from_slice(&buf[16..]);
    Felt { hi: u128::from_be_bytes(hi), lo: u128::from_be_bytes(lo) }
}

/// The selector that a name has by definition.
pub open spec fn selector_of(name: Seq<u8>) -> nat {
    starknet_keccak(name)
}

/// The selector of the entry point with the given name.
pub fn selector_from_name(entry_point_name: &str) -> (r: EntryPointSelector)
    ensures
        r.0.value() == selector_of(entry_point_name.spec_bytes()),
{
    EntryPointSelector(keccak_felt(entry_point_name.as_bytes()))
}

} // verus!
