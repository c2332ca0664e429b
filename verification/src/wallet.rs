//! The acting wallet as the pipeline sees it: the address derived from the
//! mnemonic at a derivation index. Key material and signing stay with the
//! signing provider outside this crate; a wallet here is borrowed read-only
//! for the lifetime of one invocation and never mutated.

use crate::address::Address;
use vstd::prelude::*;

verus! {

/// The identity acting as message sender of a state-changing call.
#[derive(Debug, PartialEq, Eq)]
pub struct Wallet {
    address: Address,
}

impl View for Wallet {
    type V = Seq<u8>;

    closed spec fn view(&self) -> Seq<u8> {
        self.address@
    }
}

impl Wallet {
    /// Wraps the address the signing provider derived.
    pub fn new(address: Address) -> (r: Wallet)
        ensures
            r@ == address@,
    {
        Wallet { address }
    }

    /// The address of the wallet.
    pub fn address(&self) -> (r: Address)
        ensures
            r@ == self@,
    {
        self.address.dup()
    }
}

} // verus!
