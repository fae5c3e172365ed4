//! Withdrawal from a vault that its authority can lock.
use vstd::prelude::*;

use crate::address::Address;

verus! {

/// Why a withdrawal is turned down.
#[derive(Clone, Copy, Debug, PartialEq, Eq, Structural)]
pub enum VaultError {
    VaultLocked,
    InsufficientBalance,
}

/// A vault: whether it is locked, and what it holds.
#[derive(Clone, Copy, Debug, PartialEq, Eq)]
pub struct Vault {
    pub locked: bool,
    pub lamports: u64,
}

/// What a withdrawal works on: the vault with its address, and the
/// authority of the vault with its balance.
#[derive(Clone, Copy, Debug, PartialEq, Eq)]
pub struct Withdraw {
    pub vault_authority: Address,
    pub authority_lamports: u64,
    pub vault_key: Address,
    pub vault: Vault,
}

/// The notice of a withdrawal that was made.
#[derive(Clone, Copy, Debug, PartialEq, Eq)]
pub struct WithdrawEvent {
    pub amount: u64,
    pub vault_authority: Address,
    pub vault: Address,
}

impl Withdraw {
    /// What a withdrawal of `amount` comes to: what it leaves with the
    /// notice to give, or why it is turned down.
    pub open spec fn outcome(self, amount: u64) -> Result<(Withdraw, WithdrawEvent), VaultError> {
        if self.vault.locked {
            Err(VaultError::VaultLocked)
        } else if self.vault.lamports < amount {
            Err(VaultError::InsufficientBalance)
        } else {
            Ok(
                (
                    Withdraw {
                        authority_lamports: (self.authority_lamports + amount) as u64,
                        vault: Vault {
                            lamports: (self.vault.lamports - amount) as u64,
                            ..self.vault
                        },
                        ..self
                    },
                    WithdrawEvent {
                        amount,
                        vault_authority: self.vault_authority,
                        vault: self.vault_key,
                    },
                ),
            )
        }
    }
}

/// Moves `amount` out of the vault to its authority, unless the vault is
/// locked or holds less.  On success the notice to give is returned; on
/// failure nothing has changed.
///
/// The authority has to be able to hold the amount on top of its balance.
pub fn _withdraw(ctx: &mut Withdraw, amount: u64) -> (r: Result<WithdrawEvent, VaultError>)
    requires
        old(ctx).authority_lamports + amount <= u64::MAX,
    ensures
        match old(ctx).outcome(amount) {
            Ok((after, notice)) => r == Ok::<WithdrawEvent, VaultError>(notice) && *final(ctx)
                == after,
            Err(e) => r == Err::<WithdrawEvent, VaultError>(e) && *final(ctx) == *old(ctx),
        },
{
    if ctx.vault.locked {
        return Err(VaultError::VaultLocked);
    }
    if ctx.vault.lamports < amount {
        return Err(VaultError::InsufficientBalance);
    }
    ctx.vault.lamports = ctx.vault.lamports - amount;
    ctx.authority_lamports = ctx.authority_lamports + amount;
    Ok(WithdrawEvent { amount, vault_authority: ctx.vault_authority, vault: ctx.vault_key })
}

} // verus!
