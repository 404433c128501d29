use vstd::prelude::*;

use crate::custody::{transfer, Authority, TokenAccount};
use crate::errors::AmmError;
use crate::math;
use crate::math::{lemma_price_le_reserve, price_ok, price_spec};
use crate::state::Config;

verus! {

/// The full account set a swap touches: the pool's configuration, its two
/// reserve accounts, and the trading user's two accounts. The enclosing host
/// grants exclusive access to all of them for the duration of one call.
#[derive(Clone, Copy, Debug, PartialEq, Eq, Structural)]
pub struct Swap {
    /// The trading user, whose signature authorizes the deposit leg.
    pub user: u64,
    /// The pool's configuration record, read-only to this core.
    pub config: Config,
    /// Reserve account for the first asset, owned by the derived authority.
    pub vault_x: TokenAccount,
    /// Reserve account for the second asset, owned by the derived authority.
    pub vault_y: TokenAccount,
    /// The user's account for the first asset.
    pub user_x: TokenAccount,
    /// The user's account for the second asset.
    pub user_y: TokenAccount,
}

impl Swap {
    /// Well-formedness, established by the host before trading: the fee is a
    /// valid rate, each account is associated with the expected asset, the
    /// reserves are owned by the pool's derived authority, and the user's
    /// accounts by the user.
    pub open spec fn wf(self) -> bool {
        &&& self.config.wf()
        &&& self.vault_x.asset == self.config.mint_x
        &&& self.vault_y.asset == self.config.mint_y
        &&& self.user_x.asset == self.config.mint_x
        &&& self.user_y.asset == self.config.mint_y
        &&& self.vault_x.owner == self.config.authority_spec()
        &&& self.vault_y.owner == self.config.authority_spec()
        &&& self.user_x.owner == Authority::User(self.user)
        &&& self.user_y.owner == Authority::User(self.user)
    }

    /// The reserve account of the asset selected by `is_x`.
    pub open spec fn vault_acc(self, is_x: bool) -> TokenAccount {
        if is_x {
            self.vault_x
        } else {
            self.vault_y
        }
    }

    /// The user's account of the asset selected by `is_x`.
    pub open spec fn user_acc(self, is_x: bool) -> TokenAccount {
        if is_x {
            self.user_x
        } else {
            self.user_y
        }
    }

    /// The input-side reserve of a trade whose input asset is selected by
    /// `is_x`.
    pub open spec fn reserve_in(self, is_x: bool) -> u64 {
        self.vault_acc(is_x).balance
    }

    /// The output-side reserve of a trade whose input asset is selected by
    /// `is_x`.
    pub open spec fn reserve_out(self, is_x: bool) -> u64 {
        self.vault_acc(!is_x).balance
    }

    /// The priced output of a trade of `amount` in the direction `is_x`,
    /// against the current reserves at the configured fee.
    pub open spec fn swap_out(self, is_x: bool, amount: u64) -> int {
        price_spec(
            amount as int,
            self.reserve_in(is_x) as int,
            self.reserve_out(is_x) as int,
            self.config.fee as int,
        )
    }

    /// The state after the deposit leg: `amount` moved from the user's input
    /// account into the matching reserve.
    pub open spec fn with_deposit(self, is_x: bool, amount: u64) -> Swap {
        if is_x {
            Swap {
                user_x: TokenAccount {
                    balance: (self.user_x.balance - amount) as u64,
                    ..self.user_x
                },
                vault_x: TokenAccount {
                    balance: (self.vault_x.balance + amount) as u64,
                    ..self.vault_x
                },
                ..self
            }
        } else {
            Swap {
                user_y: TokenAccount {
                    balance: (self.user_y.balance - amount) as u64,
                    ..self.user_y
                },
                vault_y: TokenAccount {
                    balance: (self.vault_y.balance + amount) as u64,
                    ..self.vault_y
                },
                ..self
            }
        }
    }

    /// The state after the withdrawal leg: `amount` moved from the reserve
    /// selected by `is_x` into the user's matching account.
    pub open spec fn with_withdraw(self, is_x: bool, amount: u64) -> Swap {
        if is_x {
            Swap {
                vault_x: TokenAccount {
                    balance: (self.vault_x.balance - amount) as u64,
                    ..self.vault_x
                },
                user_x: TokenAccount {
                    balance: (self.user_x.balance + amount) as u64,
                    ..self.user_x
                },
                ..self
            }
        } else {
            Swap {
                vault_y: TokenAccount {
                    balance: (self.vault_y.balance - amount) as u64,
                    ..self.vault_y
                },
                user_y: TokenAccount {
                    balance: (self.user_y.balance + amount) as u64,
                    ..self.user_y
                },
                ..self
            }
        }
    }

    /// The state a successful swap leaves behind: the gross input credited
    /// to the input reserve, the priced output debited from the output
    /// reserve into the user's account.
    pub open spec fn after_swap(self, is_x: bool, amount: u64) -> Swap {
        self.with_deposit(is_x, amount).with_withdraw(!is_x, self.swap_out(is_x, amount) as u64)
    }

    /// The deposit leg goes through exactly when the user covers the gross
    /// amount and the reserve's balance does not overflow.
    pub open spec fn deposit_ok(self, is_x: bool, amount: int) -> bool {
        &&& amount <= self.user_acc(is_x).balance
        &&& self.vault_acc(is_x).balance + amount <= u64::MAX
    }

    /// The failure a refused deposit leg reports.
    pub open spec fn deposit_err(self, is_x: bool, amount: int) -> AmmError {
        if amount > self.user_acc(is_x).balance {
            AmmError::InsufficientBalance
        } else {
            AmmError::Overflow
        }
    }

    /// The withdrawal leg goes through exactly when the reserve covers the
    /// amount and the user's balance does not overflow.
    pub open spec fn withdraw_ok(self, is_x: bool, amount: int) -> bool {
        &&& amount <= self.vault_acc(is_x).balance
        &&& self.user_acc(is_x).balance + amount <= u64::MAX
    }

    /// The failure a refused withdrawal leg reports.
    pub open spec fn withdraw_err(self, is_x: bool, amount: int) -> AmmError {
        if amount > self.vault_acc(is_x).balance {
            AmmError::InsufficientBalance
        } else {
            AmmError::Overflow
        }
    }

    /// The conditions under which a whole swap succeeds: the pool is open,
    /// the amount is nonzero, pricing succeeds, the output meets the
    /// caller's minimum, and both custody legs go through.
    pub open spec fn swap_ok(self, is_x: bool, amount: u64, min: u64) -> bool {
        &&& !self.config.locked
        &&& amount != 0
        &&& price_ok(amount as int, self.reserve_in(is_x) as int, self.config.fee as int)
        &&& self.swap_out(is_x, amount) >= min
        &&& amount <= self.user_acc(is_x).balance
        &&& self.reserve_in(is_x) + amount <= u64::MAX
        &&& self.user_acc(!is_x).balance + self.swap_out(is_x, amount) <= u64::MAX
    }

    /// The failure a refused swap reports; checks run in order and the first
    /// failure wins.
    pub open spec fn swap_err(self, is_x: bool, amount: u64, min: u64) -> AmmError {
        if self.config.locked {
            AmmError::PoolLocked
        } else if amount == 0 {
            AmmError::InvalidAmount
        } else if !price_ok(amount as int, self.reserve_in(is_x) as int, self.config.fee as int) {
            AmmError::Underflow
        } else if self.swap_out(is_x, amount) < min {
            AmmError::SlippageExceeded
        } else if amount > self.user_acc(is_x).balance {
            AmmError::InsufficientBalance
        } else {
            AmmError::Overflow
        }
    }

    /// Executes an atomic trade: validates the pool state and the amount,
    /// prices the trade, enforces the caller's slippage bound, then runs the
    /// deposit leg (gross amount, fee included, authorized by the user) and
    /// the withdrawal leg (priced output, authorized by the pool's derived
    /// authority). Both legs take effect or neither does.
    pub fn swap(&mut self, is_x: bool, amount: u64, min: u64) -> (r: Result<(), AmmError>)
        requires
            old(self).wf(),
        ensures
            final(self).wf(),
            r is Ok <==> old(self).swap_ok(is_x, amount, min),
            r is Ok ==> *final(self) == old(self).after_swap(is_x, amount),
            r is Ok ==> final(self).reserve_in(is_x) == old(self).reserve_in(is_x) + amount,
            r is Ok ==> final(self).reserve_out(is_x) == old(self).reserve_out(is_x) - old(
                self,
            ).swap_out(is_x, amount),
            r is Ok ==> old(self).swap_out(is_x, amount) >= min,
            r is Err ==> *final(self) == *old(self),
            r is Err ==> r == Err::<(), AmmError>(old(self).swap_err(is_x, amount, min)),
    {
        if self.config.locked {
            return Err(AmmError::PoolLocked);
        }
        if amount == 0 {
            return Err(AmmError::InvalidAmount);
        }

        let (input_reserve, output_reserve): (u64, u64) = if is_x {
            (self.vault_x.balance, self.vault_y.balance)
        } else {
            (self.vault_y.balance, self.vault_x.balance)
        };

        let output: u64 = match math::price(amount, input_reserve, output_reserve, self.config.fee) {
            Ok(o) => o,
            Err(e) => {
                return Err(e);
            },
        };

        if output < min {
            return Err(AmmError::SlippageExceeded);
        }

        match self.deposit_tokens(is_x, amount) {
            Ok(()) => (),
            Err(e) => {
                return Err(e);
            },
        }

        match self.withdraw_tokens(!is_x, output) {
            Ok(()) => Ok(()),
            Err(e) => {
                // the host commits both legs or neither: undo the deposit leg
                if is_x {
                    self.vault_x.balance = self.vault_x.balance - amount;
                    self.user_x.balance = self.user_x.balance + amount;
                } else {
                    self.vault_y.balance = self.vault_y.balance - amount;
                    self.user_y.balance = self.user_y.balance + amount;
                }
                Err(e)
            },
        }
    }

    /// The deposit leg: moves the gross amount from the user's input-asset
    /// account into the matching reserve, authorized by the user.
    pub fn deposit_tokens(&mut self, is_x: bool, amount: u64) -> (r: Result<(), AmmError>)
        requires
            old(self).wf(),
        ensures
            final(self).wf(),
            r is Ok <==> old(self).deposit_ok(is_x, amount as int),
            r is Ok ==> *final(self) == old(self).with_deposit(is_x, amount),
            r is Err ==> *final(self) == *old(self),
            r is Err ==> r == Err::<(), AmmError>(old(self).deposit_err(is_x, amount as int)),
    {
        let authority = Authority::User(self.user);
        if is_x {
            transfer(&mut self.user_x, &mut self.vault_x, amount, authority)
        } else {
            transfer(&mut self.user_y, &mut self.vault_y, amount, authority)
        }
    }

    /// The withdrawal leg: moves `amount` from the reserve selected by
    /// `is_x` into the user's matching account, authorized by the pool's
    /// derived authority, recomputed from the configuration and checked
    /// against the owner recorded on the reserve.
    pub fn withdraw_tokens(&mut self, is_x: bool, amount: u64) -> (r: Result<(), AmmError>)
        requires
            old(self).wf(),
        ensures
            final(self).wf(),
            r is Ok <==> old(self).withdraw_ok(is_x, amount as int),
            r is Ok ==> *final(self) == old(self).with_withdraw(is_x, amount),
            r is Err ==> *final(self) == *old(self),
            r is Err ==> r == Err::<(), AmmError>(old(self).withdraw_err(is_x, amount as int)),
    {
        let authority = self.config.authority();
        if is_x {
            transfer(&mut self.vault_x, &mut self.user_x, amount, authority)
        } else {
            transfer(&mut self.vault_y, &mut self.user_y, amount, authority)
        }
    }
}

/// Every successful swap with a positive minimum output credits the gross
/// amount to the input reserve and strictly decreases the output reserve.
pub proof fn lemma_swap_strictly_moves_reserves(pre: Swap, is_x: bool, amount: u64, min: u64)
    requires
        pre.wf(),
        pre.swap_ok(is_x, amount, min),
        1 <= min,
    ensures
        pre.after_swap(is_x, amount).reserve_in(is_x) == pre.reserve_in(is_x) + amount,
        pre.after_swap(is_x, amount).reserve_out(is_x) < pre.reserve_out(is_x),
{
    lemma_price_le_reserve(
        amount as int,
        pre.reserve_in(is_x) as int,
        pre.reserve_out(is_x) as int,
        pre.config.fee as int,
    );
}

/// The product of the reserves never decreases across a successful swap:
/// the gross amount is credited in full while only the net-of-fee input is
/// priced, so the fee stays in the pool.
pub proof fn lemma_swap_preserves_product(pre: Swap, is_x: bool, amount: u64, min: u64)
    requires
        pre.wf(),
        pre.swap_ok(is_x, amount, min),
        1 <= pre.reserve_in(is_x),
    ensures
        pre.after_swap(is_x, amount).reserve_in(is_x) * pre.after_swap(is_x, amount).reserve_out(
            is_x,
        ) >= pre.reserve_in(is_x) * pre.reserve_out(is_x),
{
    let x: int = pre.reserve_in(is_x) as int;
    let y: int = pre.reserve_out(is_x) as int;
    let f: int = pre.config.fee as int;
    lemma_price_le_reserve(amount as int, x, y, f);
    math::lemma_constant_product_preserved(amount as int, x, y, f);
}

/// No free lunch at the pool level: after a successful swap, trading the
/// whole proceeds straight back yields strictly less than the original
/// amount, whenever the fee rounds to at least one unit on the first leg.
pub proof fn lemma_round_trip_returns_less(pre: Swap, is_x: bool, amount: u64)
    requires
        pre.wf(),
        1 <= amount,
        1 <= pre.reserve_in(is_x),
        1 <= pre.reserve_out(is_x),
        1 <= pre.config.fee,
        10000 <= amount * pre.config.fee,
        pre.reserve_in(is_x) + amount <= u64::MAX,
    ensures
        pre.after_swap(is_x, amount).swap_out(!is_x, pre.swap_out(is_x, amount) as u64) < amount,
{
    let x: int = pre.reserve_in(is_x) as int;
    let y: int = pre.reserve_out(is_x) as int;
    let f: int = pre.config.fee as int;
    math::lemma_price_below_reserve(amount as int, x, y, f);
    math::lemma_round_trip_lossy(amount as int, x, y, f);
}

} // verus!
