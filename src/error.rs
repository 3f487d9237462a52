use vstd::prelude::*;

verus! {

/// What can make a lending operation fail. Every failure leaves the ledger
/// exactly as it was.
#[derive(Debug, Clone, Copy, PartialEq, Eq, Structural)]
pub enum LoanError {
    /// The requested loan-to-value ratio is not one of the offered tiers.
    InvalidLTV,
    /// The user already holds the maximum number of open loans.
    MaxLoansReached,
    /// The free collateral does not cover the collateral the loan requires.
    InsufficientCollateral,
    /// A withdrawal asks for more than the free collateral.
    InsufficientFunds,
    /// No open loan carries the given id.
    LoanNotFound,
    /// A repayment exceeds what is owed on the loan.
    RepaymentAmountTooHigh,
    /// A liquidation was attempted on a loan whose collateral still covers it.
    LoanNotUnderwater,
    /// The caller is not the owner of the position or the loan.
    Unauthorized,
    /// An intermediate value left the range of its integer type, a division
    /// by zero was asked for, or time ran backwards.
    ArithmeticOverflow,
    /// The price feed could not give a price.
    PriceUnavailable,
    /// An asset transfer failed.
    TransferFailed,
    /// A loan of zero was requested.
    InvalidLoanAmount,
}

} // verus!
