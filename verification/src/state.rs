use vstd::prelude::*;

use crate::custody::Authority;

verus! {

/// Pool configuration: immutable-after-init identity (the two asset
/// identifiers), a mutable fee rate in basis points, a mutable lock flag,
/// and the seed plus discriminant byte from which the pool's own transfer
/// authority is derived. Mutated only by administrative operations outside
/// this core; every swap reads it.
#[derive(Clone, Copy, Debug, PartialEq, Eq, Structural)]
pub struct Config {
    /// Identity seed the pool was initialized with.
    pub seed: u64,
    /// Identifier of the pool's first asset.
    pub mint_x: u64,
    /// Identifier of the pool's second asset.
    pub mint_y: u64,
    /// Fee rate in basis points; configuration keeps it at or below 10000.
    pub fee: u16,
    /// When set, trading is disabled.
    pub locked: bool,
    /// Discriminant byte recorded at initialization; the derived authority
    /// must reproduce it exactly.
    pub config_bump: u8,
}

impl Config {
    /// Configuration invariant: the fee rate never exceeds the whole.
    pub open spec fn wf(self) -> bool {
        self.fee <= 10000
    }

    /// The pool's derived authority: a deterministic capability recomputed
    /// from the pool's identity, never an ambient signer. It must match the
    /// owner recorded on the reserve accounts at initialization.
    pub open spec fn authority_spec(self) -> Authority {
        Authority::PoolDerived { seed: self.seed, bump: self.config_bump }
    }

    /// Recomputes the pool's derived authority.
    pub fn authority(&self) -> (a: Authority)
        ensures
            a == self.authority_spec(),
    {
        Authority::PoolDerived { seed: self.seed, bump: self.config_bump }
    }
}

} // verus!
