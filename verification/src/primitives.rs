//! Field elements and the identifiers built from them.
use vstd::prelude::*;

verus! {

/// Two to the power 128.
pub open spec fn half_base() -> nat {
    (u128::MAX as nat) + 1
}

/// A field element, held as the two halves of its 256-bit big-endian
/// representation.
#[derive(Clone, Copy, Debug, PartialEq, Eq, Structural, PartialOrd, Ord, Hash, Default)]
pub struct Felt {
    pub hi: u128,
    pub lo: u128,
}

impl Felt {
    /// The number that the element stands for.
    pub open spec fn value(self) -> nat {
        (self.hi as nat) * half_base() + (self.lo as nat)
    }

    /// The element that stands for a number below two to the power 128.
    pub fn from_u128(n: u128) -> (r: Felt)
        ensures
            r == (Felt { hi: 0, lo: n }),
            r.value() == n,
    {
        Felt { hi: 0, lo: n }
    }

    /// Whether the element is zero.
    pub fn is_zero(&self) -> (r: bool)
        ensures
            r == (self.value() == 0),
    {
        proof {
            lemma_value_injective(*self, Felt { hi: 0, lo: 0 });
        }
        self.hi == 0 && self.lo == 0
    }
}

/// Two elements that stand for the same number are the same element.
pub proof fn lemma_value_injective(a: Felt, b: Felt)
    ensures
        a.value() == b.value() <==> a == b,
{
    if a.value() == b.value() {
        let base = half_base() as int;
        let (ah, bh) = (a.hi as int, b.hi as int);
        assert(ah == bh) by (nonlinear_arith)
            requires
                ah * base + a.lo as int == bh * base + b.lo as int,
                0 <= a.lo as int,
                (a.lo as int) < base,
                0 <= b.lo as int,
                (b.lo as int) < base,
                base > 0,
        ;
    }
}

/// The selector of an entry point: the hash of the function's name.
#[derive(Clone, Copy, Debug, PartialEq, Eq, Structural, PartialOrd, Ord, Hash, Default)]
pub struct EntryPointSelector(pub Felt);

/// The hash of a contract class.
#[derive(Clone, Copy, Debug, PartialEq, Eq, Structural, PartialOrd, Ord, Hash, Default)]
pub struct ClassHash(pub Felt);

/// The address of a contract.
#[derive(Clone, Copy, Debug, PartialEq, Eq, Structural, PartialOrd, Ord, Hash, Default)]
pub struct ContractAddress(pub Felt);

/// A key of a contract's storage.
#[derive(Clone, Copy, Debug, PartialEq, Eq, Structural, PartialOrd, Ord, Hash, Default)]
pub struct StorageKey(pub Felt);

/// A nonce of an account.
#[derive(Clone, Copy, Debug, PartialEq, Eq, Structural, PartialOrd, Ord, Hash, Default)]
pub struct Nonce(pub Felt);

/// The hash of a transaction.
#[derive(Clone, Copy, Debug, PartialEq, Eq, Structural, PartialOrd, Ord, Hash, Default)]
pub struct TransactionHash(pub Felt);

/// The version of a transaction.
#[derive(Clone, Copy, Debug, PartialEq, Eq, Structural, PartialOrd, Ord, Hash, Default)]
pub struct TransactionVersion(pub Felt);

/// A fee, in wei.
#[derive(Clone, Copy, Debug, PartialEq, Eq, Structural, PartialOrd, Ord, Hash, Default)]
pub struct Fee(pub u128);

/// The kind of an entry point.
#[derive(Clone, Copy, Debug, PartialEq, Eq, Structural, PartialOrd, Ord, Hash, Default)]
pub enum EntryPointType {
    Constructor,
    #[default]
    External,
    L1Handler,
}

/// The offset of an entry point in its program.
#[derive(Clone, Copy, Debug, PartialEq, Eq, Structural, PartialOrd, Ord, Hash, Default)]
pub struct EntryPointOffset(pub usize);

/// An entry point of a legacy class.
#[derive(Clone, Copy, Debug, PartialEq, Eq, Structural, PartialOrd, Ord, Hash, Default)]
pub struct EntryPoint {
    pub selector: EntryPointSelector,
    pub offset: EntryPointOffset,
}

} // verus!
