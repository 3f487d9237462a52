use vstd::prelude::*;
use crate::address::Address;
use crate::error::LoanError;
use crate::rates::{
    accrued_interest, amount_owed, apy_for_ltv, collateral_for, interest_owed, ltv_to_apy, required_collateral,
    PERCENT,
};

verus! {

/// The most loans one user may hold open at once.
pub const MAX_LOANS_PER_USER: usize = 5;

/// One open borrowing position.
#[derive(Debug, Clone, Copy, PartialEq, Eq, Structural)]
pub struct Loan {
    /// Unique within the owning account, drawn from its loan counter.
    pub id: u64,
    /// Start of the current accrual period (origination or last partial repayment).
    pub start_date: i64,
    /// Debt not yet repaid.
    pub principal: u64,
    /// Annual rate in whole percentage points, fixed by the tier.
    pub apy: u8,
    /// Collateral locked against this loan.
    pub collateral: u64,
    /// Loan-to-value tier chosen at origination, in percent.
    pub ltv: u8,
    /// Who borrowed; always the account's owner.
    pub borrower: Address,
}

/// One user's position: the collateral held for them, the debt asset they
/// received, and their open loans.
pub struct UserAccount {
    pub owner: Address,
    /// All collateral held for the user, committed to loans or free.
    pub collateral_balance: u64,
    /// Debt-asset units the user holds through the ledger: loans add to it,
    /// repayments take from it.
    pub debt_asset_balance: u64,
    /// Number of loans ever opened; the last loan id handed out.
    pub loan_count: u64,
    /// Open loans in order of origination.
    pub loans: Vec<Loan>,
}

/// The mathematical value of a `UserAccount`.
pub struct AccountState {
    pub owner: Address,
    pub collateral_balance: u64,
    pub debt_asset_balance: u64,
    pub loan_count: u64,
    pub loans: Seq<Loan>,
}

impl View for UserAccount {
    type V = AccountState;

    open spec fn view(&self) -> AccountState {
        AccountState {
            owner: self.owner,
            collateral_balance: self.collateral_balance,
            debt_asset_balance: self.debt_asset_balance,
            loan_count: self.loan_count,
            loans: self.loans@,
        }
    }
}

/// Sum of the collateral locked by `loans`.
pub open spec fn committed(loans: Seq<Loan>) -> int
    decreases loans.len(),
{
    if loans.len() == 0 {
        0
    } else {
        committed(loans.drop_last()) + loans.last().collateral
    }
}

/// A loan as the ledger keeps it: positive principal, an offered tier with
/// its rate, an id that the counter has handed out, borrowed by `owner`.
pub open spec fn loan_valid(loan: Loan, owner: Address, loan_count: u64) -> bool {
    &&& loan.principal > 0
    &&& apy_for_ltv(loan.ltv) == Some(loan.apy)
    &&& 1 <= loan.id <= loan_count
    &&& loan.borrower == owner
}

impl AccountState {
    /// The invariant every operation keeps: at most five loans, each valid,
    /// ids strictly increasing (hence unique), and the collateral committed
    /// to loans covered by the balance.
    pub open spec fn wf(self) -> bool {
        &&& self.loans.len() <= MAX_LOANS_PER_USER
        &&& forall|i: int|
            0 <= i < self.loans.len() ==> loan_valid(
                #[trigger] self.loans[i],
                self.owner,
                self.loan_count,
            )
        &&& forall|i: int, j: int|
            0 <= i < j < self.loans.len() ==> self.loans[i].id < self.loans[j].id
        &&& committed(self.loans) <= self.collateral_balance
    }

    /// Collateral not committed to any loan.
    pub open spec fn free_collateral(self) -> int {
        self.collateral_balance - committed(self.loans)
    }

    /// Whether some open loan carries `id`.
    pub open spec fn has_loan(self, id: u64) -> bool {
        exists|i: int| 0 <= i < self.loans.len() && self.loans[i].id == id
    }
}

/// `i` is the first position of a loan with `id`.
pub open spec fn first_with_id(loans: Seq<Loan>, id: u64, i: int) -> bool {
    &&& 0 <= i < loans.len()
    &&& loans[i].id == id
    &&& forall|j: int| 0 <= j < i ==> loans[j].id != id
}

/// Position of the loan with `id`, if any.
pub open spec fn loan_index(loans: Seq<Loan>, id: u64) -> Option<int> {
    if exists|i: int| first_with_id(loans, id, i) {
        Some(choose|i: int| first_with_id(loans, id, i))
    } else {
        None
    }
}

/// What a repayment did.
#[derive(Debug, Clone, Copy, PartialEq, Eq, Structural)]
pub enum RepaymentResult {
    /// The loan's principal is paid off: the loan is closed and its
    /// collateral is free again.
    FullyRepaid { collateral_returned: u64, interest_paid: u64 },
    /// The loan stays open with a smaller principal and a fresh accrual period.
    PartiallyRepaid { remaining_principal: u64, interest_paid: u64 },
}

/// The account after `amount` more collateral is deposited by `caller`.
pub open spec fn deposit_spec(s: AccountState, caller: Address, amount: u64) -> Result<
    AccountState,
    LoanError,
> {
    if caller != s.owner {
        Err(LoanError::Unauthorized)
    } else if s.collateral_balance + amount > u64::MAX {
        Err(LoanError::ArithmeticOverflow)
    } else {
        Ok(AccountState { collateral_balance: (s.collateral_balance + amount) as u64, ..s })
    }
}

/// The account after `caller` withdraws `amount` of free collateral.
pub open spec fn withdraw_spec(s: AccountState, caller: Address, amount: u64) -> Result<
    AccountState,
    LoanError,
> {
    if caller != s.owner {
        Err(LoanError::Unauthorized)
    } else if amount > s.free_collateral() {
        Err(LoanError::InsufficientFunds)
    } else {
        Ok(AccountState { collateral_balance: (s.collateral_balance - amount) as u64, ..s })
    }
}

/// Origination of a loan of `debt` at tier `ltv`, at time `now` and
/// collateral price `price`: the account afterwards and the new loan.
/// The checks run in this order: loan count, caller, tier, collateral
/// sizing, free collateral, a zero amount, counters.
pub open spec fn originate_spec(
    s: AccountState,
    caller: Address,
    debt: u64,
    ltv: u8,
    now: i64,
    price: u64,
) -> Result<(AccountState, Loan), LoanError> {
    if s.loans.len() >= MAX_LOANS_PER_USER {
        Err(LoanError::MaxLoansReached)
    } else if caller != s.owner {
        Err(LoanError::Unauthorized)
    } else {
        match apy_for_ltv(ltv) {
            None => Err(LoanError::InvalidLTV),
            Some(apy) => match collateral_for(debt, ltv as u64, price) {
                None => Err(LoanError::ArithmeticOverflow),
                Some(needed) => if needed > s.free_collateral() {
                    Err(LoanError::InsufficientCollateral)
                } else if debt == 0 {
                    Err(LoanError::InvalidLoanAmount)
                } else if s.loan_count + 1 > u64::MAX || s.debt_asset_balance + debt > u64::MAX {
                    Err(LoanError::ArithmeticOverflow)
                } else {
                    let loan = Loan {
                        id: (s.loan_count + 1) as u64,
                        start_date: now,
                        principal: debt,
                        apy,
                        collateral: needed,
                        ltv,
                        borrower: caller,
                    };
                    Ok(
                        (
                            AccountState {
                                debt_asset_balance: (s.debt_asset_balance + debt) as u64,
                                loan_count: loan.id,
                                loans: s.loans.push(loan),
                                ..s
                            },
                            loan,
                        ),
                    )
                },
            },
        }
    }
}

/// Repayment of `amount` on loan `loan_id` by `caller` at time `now`.
/// With `total` the principal plus accrued interest and `remaining` what is
/// left of it after the payment: while `remaining` exceeds the interest, the
/// loan stays open with principal `remaining - interest` and accrues afresh
/// from `now`; otherwise its principal is paid off, so the loan is closed
/// and its collateral freed, even when the payment is below `total` (an open
/// loan never has a zero principal). Paying exactly `total` always closes
/// the loan. The payment comes out of the user's debt-asset balance: paying
/// more than that balance fails with `ArithmeticOverflow`.
pub open spec fn repay_spec(
    s: AccountState,
    caller: Address,
    loan_id: u64,
    amount: u64,
    now: i64,
) -> Result<(AccountState, RepaymentResult), LoanError> {
    if caller != s.owner {
        Err(LoanError::Unauthorized)
    } else {
        match loan_index(s.loans, loan_id) {
            None => Err(LoanError::LoanNotFound),
            Some(i) => {
                let loan = s.loans[i];
                if caller != loan.borrower {
                    Err(LoanError::Unauthorized)
                } else {
                    match accrued_interest(loan.principal, loan.apy, loan.start_date, now) {
                        None => Err(LoanError::ArithmeticOverflow),
                        Some(interest) => {
                            let total: int = loan.principal + interest;
                            if total > u64::MAX {
                                Err(LoanError::ArithmeticOverflow)
                            } else if amount > total {
                                Err(LoanError::RepaymentAmountTooHigh)
                            } else if amount > s.debt_asset_balance {
                                Err(LoanError::ArithmeticOverflow)
                            } else {
                                let remaining: int = total - amount;
                                if remaining > interest {
                                    let np = (remaining - interest) as u64;
                                    Ok(
                                        (
                                            AccountState {
                                                loans: s.loans.update(
                                                    i,
                                                    Loan { principal: np, start_date: now, ..loan },
                                                ),
                                                debt_asset_balance: (s.debt_asset_balance
                                                    - amount) as u64,
                                                ..s
                                            },
                                            RepaymentResult::PartiallyRepaid {
                                                remaining_principal: np,
                                                interest_paid: (amount - (loan.principal
                                                    - np)) as u64,
                                            },
                                        ),
                                    )
                                } else {
                                    Ok(
                                        (
                                            AccountState {
                                                loans: s.loans.remove(i),
                                                debt_asset_balance: (s.debt_asset_balance
                                                    - amount) as u64,
                                                ..s
                                            },
                                            RepaymentResult::FullyRepaid {
                                                collateral_returned: loan.collateral,
                                                interest_paid: (amount - loan.principal) as u64,
                                            },
                                        ),
                                    )
                                }
                            }
                        },
                    }
                }
            },
        }
    }
}

/// A deposit of `sol_amount` followed by an origination, as one step: when
/// the origination fails the deposit is undone too. An account that already
/// holds the most loans refuses before anything else is looked at.
pub open spec fn deposit_and_originate_spec(
    s: AccountState,
    caller: Address,
    sol_amount: u64,
    debt: u64,
    ltv: u8,
    now: i64,
    price: u64,
) -> Result<(AccountState, Loan), LoanError> {
    if s.loans.len() >= MAX_LOANS_PER_USER {
        Err(LoanError::MaxLoansReached)
    } else {
        match deposit_spec(s, caller, sol_amount) {
            Err(e) => Err(e),
            Ok(deposited) => originate_spec(deposited, caller, debt, ltv, now, price),
        }
    }
}

pub(crate) proof fn lemma_committed_nonneg(loans: Seq<Loan>)
    ensures
        committed(loans) >= 0,
    decreases loans.len(),
{
    if loans.len() > 0 {
        lemma_committed_nonneg(loans.drop_last());
    }
}

proof fn lemma_committed_push(loans: Seq<Loan>, loan: Loan)
    ensures
        committed(loans.push(loan)) == committed(loans) + loan.collateral,
{
    assert(loans.push(loan).drop_last() =~= loans);
}

pub(crate) proof fn lemma_committed_remove(loans: Seq<Loan>, i: int)
    requires
        0 <= i < loans.len(),
    ensures
        committed(loans.remove(i)) == committed(loans) - loans[i].collateral,
    decreases loans.len(),
{
    if i == loans.len() - 1 {
        assert(loans.remove(i) =~= loans.drop_last());
    } else {
        let r = loans.remove(i);
        assert(r.drop_last() =~= loans.drop_last().remove(i));
        assert(r.last() == loans.last());
        lemma_committed_remove(loans.drop_last(), i);
    }
}

proof fn lemma_committed_update(loans: Seq<Loan>, i: int, loan: Loan)
    requires
        0 <= i < loans.len(),
    ensures
        committed(loans.update(i, loan)) == committed(loans) - loans[i].collateral
            + loan.collateral,
    decreases loans.len(),
{
    let u = loans.update(i, loan);
    if i == loans.len() - 1 {
        assert(u.drop_last() =~= loans.drop_last());
    } else {
        assert(u.drop_last() =~= loans.drop_last().update(i, loan));
        lemma_committed_update(loans.drop_last(), i, loan);
    }
}

proof fn lemma_committed_take(loans: Seq<Loan>, k: int)
    requires
        0 <= k <= loans.len(),
    ensures
        committed(loans.take(k)) <= committed(loans),
        k < loans.len() ==> committed(loans.take(k + 1)) == committed(loans.take(k))
            + loans[k].collateral,
    decreases loans.len() - k,
{
    if k < loans.len() {
        assert(loans.take(k + 1).drop_last() =~= loans.take(k));
        lemma_committed_take(loans, k + 1);
    } else {
        assert(loans.take(k) =~= loans);
    }
}

proof fn lemma_first_unique(loans: Seq<Loan>, id: u64, i: int)
    requires
        first_with_id(loans, id, i),
    ensures
        loan_index(loans, id) == Some(i),
{
    let c = choose|c: int| first_with_id(loans, id, c);
    assert(first_with_id(loans, id, c));
    if c < i {
        assert(loans[c].id != id);
    } else if i < c {
        assert(loans[i].id != id);
    }
}

/// In a well-formed account, the position of any loan is where `loan_index`
/// finds its id.
pub proof fn lemma_index_of_member(s: AccountState, i: int)
    requires
        s.wf(),
        0 <= i < s.loans.len(),
    ensures
        loan_index(s.loans, s.loans[i].id) == Some(i),
{
    assert forall|j: int| 0 <= j < i implies s.loans[j].id != s.loans[i].id by {}
    lemma_first_unique(s.loans, s.loans[i].id, i);
}

/// Removing one loan of a well-formed account keeps it well formed, with any
/// debt balance and any collateral balance that still covers the rest.
pub(crate) proof fn lemma_wf_after_remove(
    s: AccountState,
    i: int,
    collateral_balance: u64,
    debt_asset_balance: u64,
)
    requires
        s.wf(),
        0 <= i < s.loans.len(),
        committed(s.loans.remove(i)) <= collateral_balance,
    ensures
        (AccountState {
            collateral_balance,
            debt_asset_balance,
            loans: s.loans.remove(i),
            ..s
        }).wf(),
{
    let r = s.loans.remove(i);
    assert forall|a: int, b: int| 0 <= a < b < r.len() implies r[a].id < r[b].id by {
        let aa = if a < i { a } else { a + 1 };
        let bb = if b < i { b } else { b + 1 };
        assert(r[a] == s.loans[aa]);
        assert(r[b] == s.loans[bb]);
    }
    assert forall|k: int| 0 <= k < r.len() implies loan_valid(
        #[trigger] r[k],
        s.owner,
        s.loan_count,
    ) by {
        let kk = if k < i { k } else { k + 1 };
        assert(r[k] == s.loans[kk]);
    }
}

/// Removing one loan of a well-formed account leaves no loan with its id.
pub proof fn lemma_removed_id_gone(s: AccountState, i: int)
    requires
        s.wf(),
        0 <= i < s.loans.len(),
    ensures
        !(AccountState { loans: s.loans.remove(i), ..s }).has_loan(s.loans[i].id),
{
    let r = s.loans.remove(i);
    assert forall|k: int| 0 <= k < r.len() implies r[k].id != s.loans[i].id by {
        if k < i {
            assert(r[k] == s.loans[k]);
        } else {
            assert(r[k] == s.loans[k + 1]);
        }
    }
}

/// Once an account holds `MAX_LOANS_PER_USER` open loans, every further
/// origination fails with `MaxLoansReached`, whoever asks and whatever the
/// amount, tier, time or price.
pub proof fn lemma_origination_beyond_limit_fails(
    s: AccountState,
    caller: Address,
    debt: u64,
    ltv: u8,
    now: i64,
    price: u64,
)
    requires
        s.loans.len() >= MAX_LOANS_PER_USER,
    ensures
        originate_spec(s, caller, debt, ltv, now, price) == Err::<(AccountState, Loan), LoanError>(
            LoanError::MaxLoansReached,
        ),
{
}

/// Originating a loan and, at the same instant, repaying exactly its
/// principal closes it with no interest and frees exactly the collateral it
/// locked: the account is as before but for its loan counter.
pub proof fn lemma_originate_then_repay_principal(
    s: AccountState,
    caller: Address,
    debt: u64,
    ltv: u8,
    now: i64,
    price: u64,
)
    requires
        s.wf(),
        originate_spec(s, caller, debt, ltv, now, price) is Ok,
    ensures
        ({
            let (opened, loan) = originate_spec(s, caller, debt, ltv, now, price)->Ok_0;
            &&& loan.collateral == collateral_for(debt, ltv as u64, price)->Some_0
            &&& repay_spec(opened, caller, loan.id, loan.principal, now) == Ok::<
                (AccountState, RepaymentResult),
                LoanError,
            >(
                (
                    AccountState { loan_count: opened.loan_count, ..s },
                    RepaymentResult::FullyRepaid {
                        collateral_returned: loan.collateral,
                        interest_paid: 0,
                    },
                ),
            )
        }),
{
    let (opened, loan) = originate_spec(s, caller, debt, ltv, now, price)->Ok_0;
    let last = s.loans.len() as int;
    assert(opened.loans[last] == loan);
    assert forall|j: int| 0 <= j < last implies opened.loans[j].id != loan.id by {
        assert(opened.loans[j] == s.loans[j]);
        assert(loan_valid(s.loans[j], s.owner, s.loan_count));
    }
    lemma_first_unique(opened.loans, loan.id, last);
    let apy = loan.apy;
    assert(apy <= 8);
    assert(debt * PERCENT <= u64::MAX);
    assert(debt * apy <= debt * PERCENT) by (nonlinear_arith)
        requires
            apy <= 8,
    ;
    assert(debt * apy * 0 == 0) by (nonlinear_arith);
    assert(accrued_interest(debt, apy, now, now) == Some(0u64));
    assert(opened.loans.remove(last) =~= s.loans);
}

/// The owner can always pay any amount up to what is owed on one of their
/// loans, as long as that amount can be computed and their debt-asset
/// balance covers it.
pub proof fn lemma_repayment_within_owed_succeeds(s: AccountState, i: int, amount: u64, now: i64)
    requires
        s.wf(),
        0 <= i < s.loans.len(),
        amount_owed(s.loans[i].principal, s.loans[i].apy, s.loans[i].start_date, now) is Some,
        amount <= amount_owed(
            s.loans[i].principal,
            s.loans[i].apy,
            s.loans[i].start_date,
            now,
        )->Some_0,
        amount <= s.debt_asset_balance,
    ensures
        repay_spec(s, s.owner, s.loans[i].id, amount, now) is Ok,
{
    lemma_index_of_member(s, i);
}

impl UserAccount {
    /// A fresh account for `owner`: no collateral, no debt, no loans.
    pub fn initialize(owner: Address) -> (r: UserAccount)
        ensures
            r@ == (AccountState {
                owner,
                collateral_balance: 0,
                debt_asset_balance: 0,
                loan_count: 0,
                loans: Seq::empty(),
            }),
            r@.wf(),
    {
        let r = UserAccount {
            owner,
            collateral_balance: 0,
            debt_asset_balance: 0,
            loan_count: 0,
            loans: Vec::new(),
        };
        assert(r.loans@ =~= Seq::<Loan>::empty());
        r
    }

    /// Whether the account satisfies the ledger's invariant. Accounts read
    /// from storage are checked with this before any operation runs on them.
    pub fn is_well_formed(&self) -> (r: bool)
        ensures
            r == self@.wf(),
    {
        if self.loans.len() > MAX_LOANS_PER_USER {
            return false;
        }
        let mut sum: u64 = 0;
        let mut k: usize = 0;
        while k < self.loans.len()
            invariant
                self.loans.len() <= MAX_LOANS_PER_USER,
                0 <= k <= self.loans.len(),
                sum == committed(self.loans@.take(k as int)),
                forall|i: int|
                    0 <= i < k ==> loan_valid(#[trigger] self.loans@[i], self.owner, self.loan_count),
                forall|i: int, j: int| 0 <= i < j < k ==> self.loans@[i].id < self.loans@[j].id,
            decreases self.loans.len() - k,
        {
            let loan = self.loans[k];
            let tier_ok = match ltv_to_apy(loan.ltv) {
                Some(a) => a == loan.apy,
                None => false,
            };
            if !(loan.principal > 0 && tier_ok && 1 <= loan.id && loan.id <= self.loan_count
                && loan.borrower == self.owner) {
                assert(!loan_valid(self.loans@[k as int], self.owner, self.loan_count));
                return false;
            }
            if k > 0 && self.loans[k - 1].id >= loan.id {
                assert(!(self.loans@[k - 1].id < self.loans@[k as int].id));
                return false;
            }
            proof {
                lemma_committed_take(self.loans@, k as int);
                lemma_committed_take(self.loans@, k as int + 1);
            }
            sum = match sum.checked_add(loan.collateral) {
                Some(t) => t,
                None => return false,
            };
            k = k + 1;
        }
        proof {
            assert(self.loans@.take(k as int) =~= self.loans@);
        }
        sum <= self.collateral_balance
    }

    /// Total collateral committed to open loans.
    pub fn committed_collateral(&self) -> (r: u64)
        requires
            self@.wf(),
        ensures
            r == committed(self@.loans),
    {
        let mut sum: u64 = 0;
        let mut k: usize = 0;
        while k < self.loans.len()
            invariant
                self@.wf(),
                0 <= k <= self.loans.len(),
                sum == committed(self.loans@.take(k as int)),
            decreases self.loans.len() - k,
        {
            proof {
                lemma_committed_take(self.loans@, k as int);
                lemma_committed_take(self.loans@, k as int + 1);
            }
            sum = sum + self.loans[k].collateral;
            k = k + 1;
        }
        proof {
            assert(self.loans@.take(k as int) =~= self.loans@);
        }
        sum
    }

    /// Collateral not committed to any open loan.
    pub fn free_collateral(&self) -> (r: u64)
        requires
            self@.wf(),
        ensures
            r == self@.free_collateral(),
    {
        self.collateral_balance - self.committed_collateral()
    }

    /// Position of the open loan with id `loan_id`.
    pub fn find_loan(&self, loan_id: u64) -> (r: Option<usize>)
        ensures
            match r {
                Some(i) => loan_index(self@.loans, loan_id) == Some(i as int),
                None => loan_index(self@.loans, loan_id) is None,
            },
    {
        let mut k: usize = 0;
        while k < self.loans.len()
            invariant
                0 <= k <= self.loans.len(),
                forall|j: int| 0 <= j < k ==> self.loans@[j].id != loan_id,
            decreases self.loans.len() - k,
        {
            if self.loans[k].id == loan_id {
                proof {
                    lemma_first_unique(self.loans@, loan_id, k as int);
                }
                return Some(k);
            }
            k = k + 1;
        }
        assert(!exists|i: int| first_with_id(self.loans@, loan_id, i));
        None
    }

    /// Adds `amount` to the collateral held for the owner.
    pub fn deposit_sol(&mut self, caller: Address, amount: u64) -> (r: Result<(), LoanError>)
        requires
            old(self)@.wf(),
        ensures
            final(self)@.wf(),
            match r {
                Ok(_) => deposit_spec(old(self)@, caller, amount) == Ok::<
                    AccountState,
                    LoanError,
                >(final(self)@),
                Err(e) => deposit_spec(old(self)@, caller, amount) == Err::<
                    AccountState,
                    LoanError,
                >(e) && final(self)@ == old(self)@,
            },
    {
        if caller != self.owner {
            return Err(LoanError::Unauthorized);
        }
        match self.collateral_balance.checked_add(amount) {
            Some(b) => {
                self.collateral_balance = b;
                Ok(())
            },
            None => Err(LoanError::ArithmeticOverflow),
        }
    }

    /// Pays `amount` of free collateral out to the owner. Collateral that
    /// backs an open loan cannot be withdrawn.
    pub fn withdraw_sol(&mut self, caller: Address, amount: u64) -> (r: Result<(), LoanError>)
        requires
            old(self)@.wf(),
        ensures
            final(self)@.wf(),
            match r {
                Ok(_) => withdraw_spec(old(self)@, caller, amount) == Ok::<
                    AccountState,
                    LoanError,
                >(final(self)@),
                Err(e) => withdraw_spec(old(self)@, caller, amount) == Err::<
                    AccountState,
                    LoanError,
                >(e) && final(self)@ == old(self)@,
            },
    {
        if caller != self.owner {
            return Err(LoanError::Unauthorized);
        }
        let free = self.free_collateral();
        if amount > free {
            return Err(LoanError::InsufficientFunds);
        }
        proof {
            lemma_committed_nonneg(self.loans@);
        }
        self.collateral_balance = self.collateral_balance - amount;
        Ok(())
    }

    /// Opens a loan of `debt_amount` at tier `ltv`, locking the collateral
    /// that `required_collateral` asks for at `price`. The caller pays the
    /// debt asset out to the borrower.
    pub fn originate(
        &mut self,
        caller: Address,
        debt_amount: u64,
        ltv: u8,
        now: i64,
        price: u64,
    ) -> (r: Result<Loan, LoanError>)
        requires
            old(self)@.wf(),
        ensures
            final(self)@.wf(),
            match r {
                Ok(loan) => originate_spec(old(self)@, caller, debt_amount, ltv, now, price) == Ok::<
                    (AccountState, Loan),
                    LoanError,
                >((final(self)@, loan)),
                Err(e) => originate_spec(old(self)@, caller, debt_amount, ltv, now, price) == Err::<
                    (AccountState, Loan),
                    LoanError,
                >(e) && final(self)@ == old(self)@,
            },
    {
        if self.loans.len() >= MAX_LOANS_PER_USER {
            return Err(LoanError::MaxLoansReached);
        }
        if caller != self.owner {
            return Err(LoanError::Unauthorized);
        }
        let apy = match ltv_to_apy(ltv) {
            Some(a) => a,
            None => return Err(LoanError::InvalidLTV),
        };
        let needed = match required_collateral(debt_amount, ltv as u64, price) {
            Ok(c) => c,
            Err(e) => return Err(e),
        };
        let free = self.free_collateral();
        if needed > free {
            return Err(LoanError::InsufficientCollateral);
        }
        if debt_amount == 0 {
            return Err(LoanError::InvalidLoanAmount);
        }
        let id = match self.loan_count.checked_add(1) {
            Some(n) => n,
            None => return Err(LoanError::ArithmeticOverflow),
        };
        let debt_balance = match self.debt_asset_balance.checked_add(debt_amount) {
            Some(b) => b,
            None => return Err(LoanError::ArithmeticOverflow),
        };
        let loan = Loan {
            id,
            start_date: now,
            principal: debt_amount,
            apy,
            collateral: needed,
            ltv,
            borrower: caller,
        };
        proof {
            lemma_committed_push(self.loans@, loan);
        }
        self.loans.push(loan);
        self.loan_count = id;
        self.debt_asset_balance = debt_balance;
        Ok(loan)
    }

    /// Deposits `sol_amount` of collateral and opens a loan of `usdc_amount`
    /// against it, all or nothing.
    pub fn deposit_sol_and_take_loan(
        &mut self,
        caller: Address,
        sol_amount: u64,
        usdc_amount: u64,
        ltv: u8,
        now: i64,
        price: u64,
    ) -> (r: Result<Loan, LoanError>)
        requires
            old(self)@.wf(),
        ensures
            final(self)@.wf(),
            match r {
                Ok(loan) => deposit_and_originate_spec(
                    old(self)@,
                    caller,
                    sol_amount,
                    usdc_amount,
                    ltv,
                    now,
                    price,
                ) == Ok::<(AccountState, Loan), LoanError>((final(self)@, loan)),
                Err(e) => deposit_and_originate_spec(
                    old(self)@,
                    caller,
                    sol_amount,
                    usdc_amount,
                    ltv,
                    now,
                    price,
                ) == Err::<(AccountState, Loan), LoanError>(e) && final(self)@ == old(self)@,
            },
    {
        if self.loans.len() >= MAX_LOANS_PER_USER {
            return Err(LoanError::MaxLoansReached);
        }
        let before = self.collateral_balance;
        match self.deposit_sol(caller, sol_amount) {
            Ok(_) => {},
            Err(e) => return Err(e),
        }
        match self.originate(caller, usdc_amount, ltv, now, price) {
            Ok(loan) => Ok(loan),
            Err(e) => {
                self.collateral_balance = before;
                Err(e)
            },
        }
    }

    /// Applies a repayment of `amount` on loan `loan_id`, made by `caller`
    /// at time `now`, as `repay_spec` describes. The caller moves `amount`
    /// of the debt asset from the borrower to the ledger.
    pub fn repay_loan(&mut self, caller: Address, loan_id: u64, amount: u64, now: i64) -> (r:
        Result<RepaymentResult, LoanError>)
        requires
            old(self)@.wf(),
        ensures
            final(self)@.wf(),
            match r {
                Ok(res) => repay_spec(old(self)@, caller, loan_id, amount, now) == Ok::<
                    (AccountState, RepaymentResult),
                    LoanError,
                >((final(self)@, res)),
                Err(e) => repay_spec(old(self)@, caller, loan_id, amount, now) == Err::<
                    (AccountState, RepaymentResult),
                    LoanError,
                >(e) && final(self)@ == old(self)@,
            },
    {
        if caller != self.owner {
            return Err(LoanError::Unauthorized);
        }
        let idx = match self.find_loan(loan_id) {
            Some(i) => i,
            None => return Err(LoanError::LoanNotFound),
        };
        let loan = self.loans[idx];
        if caller != loan.borrower {
            return Err(LoanError::Unauthorized);
        }
        let interest = match interest_owed(loan.principal, loan.apy, loan.start_date, now) {
            Ok(i) => i,
            Err(e) => return Err(e),
        };
        let total = match loan.principal.checked_add(interest) {
            Some(t) => t,
            None => return Err(LoanError::ArithmeticOverflow),
        };
        if amount > total {
            return Err(LoanError::RepaymentAmountTooHigh);
        }
        let debt_left = match self.debt_asset_balance.checked_sub(amount) {
            Some(b) => b,
            None => return Err(LoanError::ArithmeticOverflow),
        };
        let remaining = total - amount;
        let ghost s = self@;
        if remaining > interest {
            let new_principal = remaining - interest;
            let interest_paid = amount - (loan.principal - new_principal);
            let updated = Loan { principal: new_principal, start_date: now, ..loan };
            proof {
                lemma_committed_update(s.loans, idx as int, updated);
            }
            self.loans.set(idx, updated);
            self.debt_asset_balance = debt_left;
            assert(self.loans@ == s.loans.update(idx as int, updated));
            Ok(RepaymentResult::PartiallyRepaid { remaining_principal: new_principal, interest_paid })
        } else {
            proof {
                lemma_committed_remove(s.loans, idx as int);
                lemma_wf_after_remove(s, idx as int, s.collateral_balance, debt_left);
            }
            self.loans.remove(idx);
            self.debt_asset_balance = debt_left;
            Ok(
                RepaymentResult::FullyRepaid {
                    collateral_returned: loan.collateral,
                    interest_paid: amount - loan.principal,
                },
            )
        }
    }
}

} // verus!
