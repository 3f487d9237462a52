use sol_savings::address::Address;
use sol_savings::vault::{
    DepositError, DepositInstruction, DepositWithdrawError, DepositWithdrawInstruction, VaultAccount,
};

const OWNER: Address = Address { high: 1, low: 2 };
const OTHER: Address = Address { high: 3, low: 4 };

fn blank() -> VaultAccount {
    VaultAccount { owner: OTHER, balance: 0 }
}

#[test]
fn vault_initialize_deposit_withdraw() {
    let mut v = VaultAccount { owner: OTHER, balance: 77 };
    v.process_deposit(OWNER, DepositInstruction::InitializeAccount).unwrap();
    assert_eq!(v, VaultAccount { owner: OWNER, balance: 0 });
    v.process_deposit(OWNER, DepositInstruction::Deposit { amount: 100_000 }).unwrap();
    assert_eq!(v.balance, 100_000);
    v.process_deposit(OWNER, DepositInstruction::Withdraw { amount: 50_000 }).unwrap();
    assert_eq!(v.balance, 50_000);
    v.process_deposit(OWNER, DepositInstruction::Deposit { amount: 0 }).unwrap();
    assert_eq!(v.balance, 50_000);
}

#[test]
fn vault_errors() {
    let mut v = blank();
    v.process_deposit(OWNER, DepositInstruction::InitializeAccount).unwrap();
    v.process_deposit(OWNER, DepositInstruction::Deposit { amount: 10 }).unwrap();
    assert_eq!(
        v.process_deposit(OTHER, DepositInstruction::Deposit { amount: 1 }),
        Err(DepositError::Unauthorized)
    );
    assert_eq!(
        v.process_deposit(OTHER, DepositInstruction::Withdraw { amount: 1 }),
        Err(DepositError::Unauthorized)
    );
    assert_eq!(
        v.process_deposit(OWNER, DepositInstruction::Withdraw { amount: 11 }),
        Err(DepositError::InsufficientFunds)
    );
    assert_eq!(
        v.process_deposit(OWNER, DepositInstruction::Deposit { amount: u64::MAX }),
        Err(DepositError::AmountOverflow)
    );
    assert_eq!(v, VaultAccount { owner: OWNER, balance: 10 });
}

#[test]
fn strict_vault_round_trip() {
    let mut v = blank();
    v.process_deposit_withdraw(OWNER, DepositWithdrawInstruction::InitializeAccount).unwrap();
    v.process_deposit_withdraw(OWNER, DepositWithdrawInstruction::Deposit { amount: 5_000_000_000 })
        .unwrap();
    v.process_deposit_withdraw(OWNER, DepositWithdrawInstruction::Withdraw { amount: 2_000_000_000 })
        .unwrap();
    assert_eq!(v.balance, 3_000_000_000);
}

#[test]
fn strict_vault_errors() {
    let mut v = blank();
    v.process_deposit_withdraw(OWNER, DepositWithdrawInstruction::InitializeAccount).unwrap();
    v.process_deposit_withdraw(OWNER, DepositWithdrawInstruction::Deposit { amount: 1_000_000_000 })
        .unwrap();
    assert_eq!(
        v.process_deposit_withdraw(OWNER, DepositWithdrawInstruction::Deposit { amount: 0 }),
        Err(DepositWithdrawError::AmountMustBeGreaterThanZero)
    );
    assert_eq!(
        v.process_deposit_withdraw(OWNER, DepositWithdrawInstruction::Withdraw { amount: 0 }),
        Err(DepositWithdrawError::AmountMustBeGreaterThanZero)
    );
    assert_eq!(
        v.process_deposit_withdraw(OTHER, DepositWithdrawInstruction::Deposit { amount: 1 }),
        Err(DepositWithdrawError::InvalidAccountData)
    );
    assert_eq!(
        v.process_deposit_withdraw(OWNER, DepositWithdrawInstruction::Withdraw { amount: 2_000_000_000 }),
        Err(DepositWithdrawError::InsufficientBalance)
    );
    assert_eq!(
        v.process_deposit_withdraw(OWNER, DepositWithdrawInstruction::Deposit { amount: u64::MAX }),
        Err(DepositWithdrawError::Overflow)
    );
    assert_eq!(v.balance, 1_000_000_000);
}

#[test]
fn main_deposit_test_initialize_account() {
    let user = Address { high: 9, low: 9 };
    let mut v = VaultAccount { owner: OTHER, balance: 0 };
    v.process_deposit_withdraw(user, DepositWithdrawInstruction::InitializeAccount).unwrap();
    assert_eq!(v.owner, user);
    assert_eq!(v.balance, 0);
}

#[test]
fn main_deposit_test_deposit() {
    let user = Address { high: 9, low: 9 };
    let mut v = VaultAccount { owner: user, balance: 0 };
    let deposit_amount = 50000;
    let result = v.process_deposit_withdraw(user, DepositWithdrawInstruction::Deposit { amount: deposit_amount });
    assert!(result.is_ok());
    assert_eq!(v.balance, deposit_amount);
}

#[test]
fn main_deposit_withdraw_test_initialize_account() {
    let user = Address { high: 5, low: 6 };
    let mut v = VaultAccount { owner: OTHER, balance: 100000 };
    let result = v.process_deposit_withdraw(user, DepositWithdrawInstruction::InitializeAccount);
    assert!(result.is_ok());
    assert_eq!(v.owner, user);
    assert_eq!(v.balance, 0);
}

#[test]
fn main_deposit_withdraw_test_deposit_and_withdraw() {
    let user = Address { high: 5, low: 6 };
    let mut v = VaultAccount { owner: user, balance: 0 };
    v.process_deposit_withdraw(user, DepositWithdrawInstruction::Deposit { amount: 100000 }).unwrap();
    v.process_deposit_withdraw(user, DepositWithdrawInstruction::Withdraw { amount: 100000 }).unwrap();
    assert_eq!(v.balance, 0);
}
