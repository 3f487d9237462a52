use vstd::prelude::*;
use crate::address::Address;
use crate::error::LoanError;
use crate::ledger::{
    originate_spec, repay_spec, withdraw_spec, AccountState, Loan, RepaymentResult, UserAccount,
};
use crate::liquidation::{liquidate_spec, LiquidationResult};

verus! {

/// The operations a caller may request on a position.
#[derive(Debug, Clone, Copy, PartialEq, Eq, Structural)]
pub enum LoanInstruction {
    /// Borrow `debt_amount` at loan-to-value tier `ltv`.
    Originate { debt_amount: u64, ltv: u8 },
    /// Pay `amount` towards loan `loan_id`.
    Repay { loan_id: u64, amount: u64 },
    /// Close underwater loan `loan_id`, paying its debt for its collateral.
    Liquidate { loan_id: u64 },
    /// Take `amount` of free collateral out.
    Withdraw { amount: u64 },
}

/// What a successful instruction did, for the caller to act on and report.
#[derive(Debug, Clone, Copy, PartialEq, Eq, Structural)]
pub enum LoanEvent {
    LoanCreated { loan: Loan },
    LoanRepaid { loan_id: u64, amount: u64, result: RepaymentResult },
    LoanLiquidated { result: LiquidationResult },
    Withdrawn { amount: u64 },
}

/// The account and event after `caller` asks for `ix` at time `now` with the
/// collateral priced at `price`.
pub open spec fn process_spec(
    s: AccountState,
    caller: Address,
    ix: LoanInstruction,
    now: i64,
    price: u64,
) -> Result<(AccountState, LoanEvent), LoanError> {
    match ix {
        LoanInstruction::Originate { debt_amount, ltv } => match originate_spec(
            s,
            caller,
            debt_amount,
            ltv,
            now,
            price,
        ) {
            Ok((t, loan)) => Ok((t, LoanEvent::LoanCreated { loan })),
            Err(e) => Err(e),
        },
        LoanInstruction::Repay { loan_id, amount } => match repay_spec(
            s,
            caller,
            loan_id,
            amount,
            now,
        ) {
            Ok((t, result)) => Ok((t, LoanEvent::LoanRepaid { loan_id, amount, result })),
            Err(e) => Err(e),
        },
        LoanInstruction::Liquidate { loan_id } => match liquidate_spec(s, loan_id, caller, now, price) {
            Ok((t, result)) => Ok((t, LoanEvent::LoanLiquidated { result })),
            Err(e) => Err(e),
        },
        LoanInstruction::Withdraw { amount } => match withdraw_spec(s, caller, amount) {
            Ok(t) => Ok((t, LoanEvent::Withdrawn { amount })),
            Err(e) => Err(e),
        },
    }
}

impl UserAccount {
    /// Carries out one instruction from `caller`. Liquidation may be asked
    /// for by anyone, who then acts as the liquidator; the other
    /// instructions only by the owner.
    pub fn process(&mut self, caller: Address, ix: LoanInstruction, now: i64, price: u64) -> (r:
        Result<LoanEvent, LoanError>)
        requires
            old(self)@.wf(),
        ensures
            final(self)@.wf(),
            match r {
                Ok(ev) => process_spec(old(self)@, caller, ix, now, price) == Ok::<
                    (AccountState, LoanEvent),
                    LoanError,
                >((final(self)@, ev)),
                Err(e) => process_spec(old(self)@, caller, ix, now, price) == Err::<
                    (AccountState, LoanEvent),
                    LoanError,
                >(e) && final(self)@ == old(self)@,
            },
    {
        match ix {
            LoanInstruction::Originate { debt_amount, ltv } => {
                match self.originate(caller, debt_amount, ltv, now, price) {
                    Ok(loan) => Ok(LoanEvent::LoanCreated { loan }),
                    Err(e) => Err(e),
                }
            },
            LoanInstruction::Repay { loan_id, amount } => {
                match self.repay_loan(caller, loan_id, amount, now) {
                    Ok(result) => Ok(LoanEvent::LoanRepaid { loan_id, amount, result }),
                    Err(e) => Err(e),
                }
            },
            LoanInstruction::Liquidate { loan_id } => {
                match self.liquidate_loan(loan_id, caller, now, price) {
                    Ok(result) => Ok(LoanEvent::LoanLiquidated { result }),
                    Err(e) => Err(e),
                }
            },
            LoanInstruction::Withdraw { amount } => {
                match self.withdraw_sol(caller, amount) {
                    Ok(_) => Ok(LoanEvent::Withdrawn { amount }),
                    Err(e) => Err(e),
                }
            },
        }
    }
}

} // verus!
