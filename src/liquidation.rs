use vstd::prelude::*;
use crate::address::Address;
use crate::error::LoanError;
use crate::ledger::{
    lemma_committed_nonneg, lemma_committed_remove, lemma_index_of_member, lemma_removed_id_gone,
    lemma_wf_after_remove, loan_index, AccountState, Loan, UserAccount,
};
use crate::rates::{amount_owed, or_overflow, total_owed, PRICE_SCALE};

verus! {

/// Worth of `collateral` units in debt units at `price`:
/// `collateral * price / PRICE_SCALE`, or `None` where the product overflows.
pub open spec fn value_of(collateral: u64, price: u64) -> Option<u64> {
    if collateral * price > u64::MAX {
        None
    } else {
        Some(((collateral * price) / PRICE_SCALE as int) as u64)
    }
}

/// Whether `loan` is underwater at time `now` and price `price`: its
/// collateral is worth less than its principal plus accrued interest.
/// `None` where either amount cannot be computed.
pub open spec fn underwater(loan: Loan, now: i64, price: u64) -> Option<bool> {
    match amount_owed(loan.principal, loan.apy, loan.start_date, now) {
        None => None,
        Some(owed) => match value_of(loan.collateral, price) {
            None => None,
            Some(value) => Some(value < owed),
        },
    }
}

/// The worth of `collateral` in debt units at `price`.
pub fn collateral_value(collateral: u64, price: u64) -> (r: Result<u64, LoanError>)
    ensures
        r == or_overflow(value_of(collateral, price)),
{
    match collateral.checked_mul(price) {
        Some(v) => Ok(v / PRICE_SCALE),
        None => Err(LoanError::ArithmeticOverflow),
    }
}

/// Whether `loan` may be liquidated at time `now` and price `price`.
/// It reads nothing but its arguments.
pub fn is_underwater(loan: &Loan, now: i64, price: u64) -> (r: Result<bool, LoanError>)
    ensures
        r == or_overflow(underwater(*loan, now, price)),
{
    let owed = match total_owed(loan.principal, loan.apy, loan.start_date, now) {
        Ok(t) => t,
        Err(e) => return Err(e),
    };
    let value = match collateral_value(loan.collateral, price) {
        Ok(v) => v,
        Err(e) => return Err(e),
    };
    Ok(value < owed)
}

/// What a liquidation settled: the liquidator pays `debt_repaid` of the debt
/// asset and receives `collateral_seized`.
#[derive(Debug, Clone, Copy, PartialEq, Eq, Structural)]
pub struct LiquidationResult {
    pub loan_id: u64,
    pub liquidator: Address,
    pub borrower: Address,
    pub debt_repaid: u64,
    pub collateral_seized: u64,
}

/// Liquidation of loan `loan_id` by `liquidator` at time `now` and price
/// `price`. An
/// underwater loan is closed: its collateral leaves the account for the
/// liquidator, who pays the full amount owed. The borrower owes nothing
/// afterwards, whatever the shortfall.
pub open spec fn liquidate_spec(
    s: AccountState,
    loan_id: u64,
    liquidator: Address,
    now: i64,
    price: u64,
) -> Result<
    (AccountState, LiquidationResult),
    LoanError,
> {
    match loan_index(s.loans, loan_id) {
        None => Err(LoanError::LoanNotFound),
        Some(i) => {
            let loan = s.loans[i];
            match underwater(loan, now, price) {
                None => Err(LoanError::ArithmeticOverflow),
                Some(false) => Err(LoanError::LoanNotUnderwater),
                Some(true) => Ok(
                    (
                        AccountState {
                            collateral_balance: (s.collateral_balance - loan.collateral) as u64,
                            loans: s.loans.remove(i),
                            ..s
                        },
                        LiquidationResult {
                            loan_id,
                            liquidator,
                            borrower: loan.borrower,
                            debt_repaid: amount_owed(
                                loan.principal,
                                loan.apy,
                                loan.start_date,
                                now,
                            )->Some_0,
                            collateral_seized: loan.collateral,
                        },
                    ),
                ),
            }
        },
    }
}

/// Checking a loan twice with the same loan, time and price gives the same
/// answer: any two results that `is_underwater` may return for them agree.
pub proof fn lemma_underwater_check_repeatable(
    loan: Loan,
    now: i64,
    price: u64,
    first: Result<bool, LoanError>,
    second: Result<bool, LoanError>,
)
    requires
        first == or_overflow(underwater(loan, now, price)),
        second == or_overflow(underwater(loan, now, price)),
    ensures
        first == second,
{
}

/// Liquidation is safe: an open loan whose collateral is worth at least what
/// is owed on it cannot be liquidated, and one whose collateral is worth less
/// always can be, for the full amount owed and all of its collateral, after
/// which no open loan carries its id.
pub proof fn lemma_liquidation_safety(
    s: AccountState,
    i: int,
    liquidator: Address,
    now: i64,
    price: u64,
)
    requires
        s.wf(),
        0 <= i < s.loans.len(),
        amount_owed(s.loans[i].principal, s.loans[i].apy, s.loans[i].start_date, now) is Some,
        value_of(s.loans[i].collateral, price) is Some,
    ensures
        ({
            let loan = s.loans[i];
            let owed = amount_owed(loan.principal, loan.apy, loan.start_date, now)->Some_0;
            let value = value_of(loan.collateral, price)->Some_0;
            let r = liquidate_spec(s, loan.id, liquidator, now, price);
            &&& value >= owed ==> r == Err::<(AccountState, LiquidationResult), LoanError>(
                LoanError::LoanNotUnderwater,
            )
            &&& value < owed ==> {
                &&& r is Ok
                &&& r->Ok_0.1.debt_repaid == owed
                &&& r->Ok_0.1.collateral_seized == loan.collateral
                &&& !r->Ok_0.0.has_loan(loan.id)
            }
        }),
{
    lemma_index_of_member(s, i);
    lemma_removed_id_gone(s, i);
}

impl UserAccount {
    /// Liquidates loan `loan_id` if it is underwater at `now` and `price`.
    /// The caller moves `debt_repaid` from the liquidator to the ledger and
    /// `collateral_seized` to the liquidator.
    pub fn liquidate_loan(&mut self, loan_id: u64, liquidator: Address, now: i64, price: u64) -> (r:
        Result<LiquidationResult, LoanError>)
        requires
            old(self)@.wf(),
        ensures
            final(self)@.wf(),
            match r {
                Ok(res) => liquidate_spec(old(self)@, loan_id, liquidator, now, price) == Ok::<
                    (AccountState, LiquidationResult),
                    LoanError,
                >((final(self)@, res)),
                Err(e) => liquidate_spec(old(self)@, loan_id, liquidator, now, price) == Err::<
                    (AccountState, LiquidationResult),
                    LoanError,
                >(e) && final(self)@ == old(self)@,
            },
    {
        let idx = match self.find_loan(loan_id) {
            Some(i) => i,
            None => return Err(LoanError::LoanNotFound),
        };
        let loan = self.loans[idx];
        match is_underwater(&loan, now, price) {
            Ok(true) => {},
            Ok(false) => return Err(LoanError::LoanNotUnderwater),
            Err(e) => return Err(e),
        }
        let debt_repaid = match total_owed(loan.principal, loan.apy, loan.start_date, now) {
            Ok(t) => t,
            Err(e) => return Err(e),
        };
        let ghost s = self@;
        proof {
            lemma_committed_remove(s.loans, idx as int);
            lemma_committed_nonneg(s.loans.remove(idx as int));
            lemma_wf_after_remove(
                s,
                idx as int,
                (s.collateral_balance - loan.collateral) as u64,
                s.debt_asset_balance,
            );
        }
        self.loans.remove(idx);
        self.collateral_balance = self.collateral_balance - loan.collateral;
        Ok(
            LiquidationResult {
                loan_id,
                liquidator,
                borrower: loan.borrower,
                debt_repaid,
                collateral_seized: loan.collateral,
            },
        )
    }
}

} // verus!
