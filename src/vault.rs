use vstd::prelude::*;
use crate::address::Address;

verus! {

/// A plain balance kept for one owner: deposits add to it, withdrawals
/// take from it.
#[derive(Debug, Clone, Copy, PartialEq, Eq, Structural)]
pub struct VaultAccount {
    pub owner: Address,
    pub balance: u64,
}

/// Requests on a vault that accepts any amount.
#[derive(Debug, Clone, Copy, PartialEq, Eq, Structural)]
pub enum DepositInstruction {
    /// Claim the vault for the signer, with a zero balance.
    InitializeAccount,
    Deposit { amount: u64 },
    Withdraw { amount: u64 },
}

/// Failures of `DepositInstruction`s.
#[derive(Debug, Clone, Copy, PartialEq, Eq, Structural)]
pub enum DepositError {
    /// The request could not be decoded.
    InvalidInstruction,
    /// The account does not hold enough to be kept.
    NotRentExempt,
    /// A withdrawal exceeds the balance.
    InsufficientFunds,
    /// A deposit would overflow the balance.
    AmountOverflow,
    /// The signer does not own the vault.
    Unauthorized,
}

/// Requests on a vault that refuses zero amounts.
#[derive(Debug, Clone, Copy, PartialEq, Eq, Structural)]
pub enum DepositWithdrawInstruction {
    /// Claim the vault for the signer, with a zero balance.
    InitializeAccount,
    Deposit { amount: u64 },
    Withdraw { amount: u64 },
}

/// Failures of `DepositWithdrawInstruction`s.
#[derive(Debug, Clone, Copy, PartialEq, Eq, Structural)]
pub enum DepositWithdrawError {
    /// The request could not be decoded.
    InvalidInstruction,
    /// The account does not hold enough to be kept.
    NotRentExempt,
    /// A deposit or withdrawal of zero.
    AmountMustBeGreaterThanZero,
    /// A withdrawal exceeds the balance.
    InsufficientBalance,
    /// A deposit would overflow the balance.
    Overflow,
    /// The signer does not own the vault.
    InvalidAccountData,
}

/// The vault after `signer` asks for `ix`.
pub open spec fn deposit_step(v: VaultAccount, signer: Address, ix: DepositInstruction) -> Result<
    VaultAccount,
    DepositError,
> {
    match ix {
        DepositInstruction::InitializeAccount => Ok(VaultAccount { owner: signer, balance: 0 }),
        DepositInstruction::Deposit { amount } => if v.owner != signer {
            Err(DepositError::Unauthorized)
        } else if v.balance + amount > u64::MAX {
            Err(DepositError::AmountOverflow)
        } else {
            Ok(VaultAccount { balance: (v.balance + amount) as u64, ..v })
        },
        DepositInstruction::Withdraw { amount } => if v.owner != signer {
            Err(DepositError::Unauthorized)
        } else if v.balance < amount {
            Err(DepositError::InsufficientFunds)
        } else {
            Ok(VaultAccount { balance: (v.balance - amount) as u64, ..v })
        },
    }
}

/// The vault after `signer` asks for `ix`, zero amounts refused.
pub open spec fn deposit_withdraw_step(
    v: VaultAccount,
    signer: Address,
    ix: DepositWithdrawInstruction,
) -> Result<VaultAccount, DepositWithdrawError> {
    match ix {
        DepositWithdrawInstruction::InitializeAccount => Ok(
            VaultAccount { owner: signer, balance: 0 },
        ),
        DepositWithdrawInstruction::Deposit { amount } => if amount == 0 {
            Err(DepositWithdrawError::AmountMustBeGreaterThanZero)
        } else if v.owner != signer {
            Err(DepositWithdrawError::InvalidAccountData)
        } else if v.balance + amount > u64::MAX {
            Err(DepositWithdrawError::Overflow)
        } else {
            Ok(VaultAccount { balance: (v.balance + amount) as u64, ..v })
        },
        DepositWithdrawInstruction::Withdraw { amount } => if amount == 0 {
            Err(DepositWithdrawError::AmountMustBeGreaterThanZero)
        } else if v.owner != signer {
            Err(DepositWithdrawError::InvalidAccountData)
        } else if v.balance < amount {
            Err(DepositWithdrawError::InsufficientBalance)
        } else {
            Ok(VaultAccount { balance: (v.balance - amount) as u64, ..v })
        },
    }
}

impl VaultAccount {
    /// Carries out `ix` for `signer`; on failure the vault is unchanged.
    pub fn process_deposit(&mut self, signer: Address, ix: DepositInstruction) -> (r: Result<
        (),
        DepositError,
    >)
        ensures
            match deposit_step(*old(self), signer, ix) {
                Ok(v) => r is Ok && *final(self) == v,
                Err(e) => r == Err::<(), DepositError>(e) && *final(self) == *old(self),
            },
    {
        match ix {
            DepositInstruction::InitializeAccount => {
                self.owner = signer;
                self.balance = 0;
                Ok(())
            },
            DepositInstruction::Deposit { amount } => {
                if self.owner != signer {
                    return Err(DepositError::Unauthorized);
                }
                match self.balance.checked_add(amount) {
                    Some(b) => {
                        self.balance = b;
                        Ok(())
                    },
                    None => Err(DepositError::AmountOverflow),
                }
            },
            DepositInstruction::Withdraw { amount } => {
                if self.owner != signer {
                    return Err(DepositError::Unauthorized);
                }
                if self.balance < amount {
                    return Err(DepositError::InsufficientFunds);
                }
                self.balance = self.balance - amount;
                Ok(())
            },
        }
    }

    /// Carries out `ix` for `signer`, refusing zero amounts; on failure the
    /// vault is unchanged.
    pub fn process_deposit_withdraw(
        &mut self,
        signer: Address,
        ix: DepositWithdrawInstruction,
    ) -> (r: Result<(), DepositWithdrawError>)
        ensures
            match deposit_withdraw_step(*old(self), signer, ix) {
                Ok(v) => r is Ok && *final(self) == v,
                Err(e) => r == Err::<(), DepositWithdrawError>(e) && *final(self) == *old(self),
            },
    {
        match ix {
            DepositWithdrawInstruction::InitializeAccount => {
                self.owner = signer;
                self.balance = 0;
                Ok(())
            },
            DepositWithdrawInstruction::Deposit { amount } => {
                if amount == 0 {
                    return Err(DepositWithdrawError::AmountMustBeGreaterThanZero);
                }
                if self.owner != signer {
                    return Err(DepositWithdrawError::InvalidAccountData);
                }
                match self.balance.checked_add(amount) {
                    Some(b) => {
                        self.balance = b;
                        Ok(())
                    },
                    None => Err(DepositWithdrawError::Overflow),
                }
            },
            DepositWithdrawInstruction::Withdraw { amount } => {
                if amount == 0 {
                    return Err(DepositWithdrawError::AmountMustBeGreaterThanZero);
                }
                if self.owner != signer {
                    return Err(DepositWithdrawError::InvalidAccountData);
                }
                if self.balance < amount {
                    return Err(DepositWithdrawError::InsufficientBalance);
                }
                self.balance = self.balance - amount;
                Ok(())
            },
        }
    }
}

} // verus!
