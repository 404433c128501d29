use vstd::prelude::*;

use crate::errors::AmmError;

verus! {

/// Who may move funds out of a custody account.
#[derive(Clone, Copy, Debug, PartialEq, Eq, Structural)]
pub enum Authority {
    /// A trading user, authorized by their own signature on the enclosing
    /// request.
    User(u64),
    /// A pool's derived authority: a deterministic capability computed from
    /// the pool's identity seed and the discriminant byte recorded at
    /// initialization.
    PoolDerived { seed: u64, bump: u8 },
}

/// A custody account: holds `balance` units of asset `asset`; only `owner`
/// may authorize outgoing transfers.
#[derive(Clone, Copy, Debug, PartialEq, Eq, Structural)]
pub struct TokenAccount {
    /// Identifier of the asset this account holds.
    pub asset: u64,
    /// The only authority that may act as the source side of a transfer.
    pub owner: Authority,
    /// Current balance, in base units of the asset.
    pub balance: u64,
}

/// The conditions under which a transfer goes through: the presented
/// authority owns the source, both accounts hold the same asset, the source
/// covers the amount, and the destination's balance does not overflow.
pub open spec fn transfer_ok(from: TokenAccount, to: TokenAccount, amount: int, authority: Authority) -> bool {
    &&& authority == from.owner
    &&& from.asset == to.asset
    &&& amount <= from.balance
    &&& to.balance + amount <= u64::MAX
}

/// The failure a refused transfer reports, first applicable reason wins:
/// authorization, then asset association, then source balance, then
/// destination overflow.
pub open spec fn transfer_err(from: TokenAccount, to: TokenAccount, amount: int, authority: Authority) -> AmmError {
    if authority != from.owner {
        AmmError::BadAuthority
    } else if from.asset != to.asset {
        AmmError::AssetMismatch
    } else if amount > from.balance {
        AmmError::InsufficientBalance
    } else {
        AmmError::Overflow
    }
}

/// Moves `amount` from `from` to `to`, all or nothing: on success the source
/// is debited and the destination credited in the same step; on any failure
/// neither account changes. The source side is released only to its recorded
/// owner: the presented authority must reproduce it exactly.
pub fn transfer(
    from: &mut TokenAccount,
    to: &mut TokenAccount,
    amount: u64,
    authority: Authority,
) -> (r: Result<(), AmmError>)
    ensures
        r is Ok <==> transfer_ok(*old(from), *old(to), amount as int, authority),
        r is Ok ==> final(from).balance == old(from).balance - amount && final(to).balance == old(
            to,
        ).balance + amount,
        r is Err ==> *final(from) == *old(from) && *final(to) == *old(to),
        r is Err ==> r == Err::<(), AmmError>(
            transfer_err(*old(from), *old(to), amount as int, authority),
        ),
        final(from).asset == old(from).asset && final(from).owner == old(from).owner,
        final(to).asset == old(to).asset && final(to).owner == old(to).owner,
{
    if !(authority == from.owner) {
        return Err(AmmError::BadAuthority);
    }
    if !(from.asset == to.asset) {
        return Err(AmmError::AssetMismatch);
    }
    if amount > from.balance {
        return Err(AmmError::InsufficientBalance);
    }
    if to.balance > u64::MAX - amount {
        return Err(AmmError::Overflow);
    }
    from.balance = from.balance - amount;
    to.balance = to.balance + amount;
    Ok(())
}

} // verus!
