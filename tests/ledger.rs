use microfinance::ledger::MicrofinanceContract;
use microfinance::loan::{Loan, LoanError, LoanStats};
use soroban_sdk::testutils::{Address as _, Ledger as _};
use soroban_sdk::{Address, Env};

const ZERO_ACCOUNT: &str = "GAAAAAAAAAAAAAAAAAAAAAAAAAAAAAAAAAAAAAAAAAAAAAAAAAAAAWHF";

fn stats_of(l: &MicrofinanceContract) -> (u64, u64, u64, u64) {
    let s: LoanStats = l.view_loan_stats();
    (s.total_loans, s.active_loans, s.repaid_loans, s.total_disbursed)
}

#[test]
fn two_borrowers_scenario() {
    let env = Env::default();
    env.ledger().set_timestamp(1_000);
    let a = Address::generate(&env);
    let b = Address::generate(&env);
    let mut l = MicrofinanceContract::new(env.clone());
    assert_eq!(l.issue_loan(a.clone(), 1000), 1);
    assert_eq!(l.issue_loan(b.clone(), 500), 2);
    assert_eq!(l.repay_loan(1), Ok(()));
    assert!(l.view_loan(1).repaid);
    assert!(!l.view_loan(2).repaid);
    assert_eq!(stats_of(&l), (2, 1, 1, 1500));
    assert_eq!(l.repay_loan(1), Err(LoanError::AlreadyRepaid));
    assert_eq!(l.repay_loan(99), Err(LoanError::NotFound));
    assert_eq!(stats_of(&l), (2, 1, 1, 1500));
}

#[test]
fn ids_are_sequential_from_one() {
    let env = Env::default();
    let mut l = MicrofinanceContract::new(env.clone());
    for k in 1..=10u64 {
        let who = Address::generate(&env);
        assert_eq!(l.issue_loan(who.clone(), k * 7), k);
        let loan = l.view_loan(k);
        assert_eq!(loan.loan_id, k);
        assert_eq!(loan.amount, k * 7);
        assert!(loan.borrower == who);
    }
}

#[test]
fn stats_stay_balanced_over_mixed_operations() {
    let env = Env::default();
    let who = Address::generate(&env);
    let mut l = MicrofinanceContract::new(env.clone());
    let mut issued: u64 = 0;
    for amount in [10u64, 0, 250, 40, 5] {
        l.issue_loan(who.clone(), amount);
        issued += amount;
    }
    assert_eq!(l.repay_loan(2), Ok(()));
    assert_eq!(l.repay_loan(4), Ok(()));
    assert_eq!(l.repay_loan(4), Err(LoanError::AlreadyRepaid));
    assert_eq!(l.repay_loan(6), Err(LoanError::NotFound));
    let (total, active, repaid, disbursed) = stats_of(&l);
    assert_eq!(total, active + repaid);
    assert_eq!((total, active, repaid), (5, 3, 2));
    assert_eq!(disbursed, issued);
    assert_eq!(disbursed, 305);
}

#[test]
fn repaying_unissued_loan_is_not_found_and_changes_nothing() {
    let env = Env::default();
    let who = Address::generate(&env);
    let mut l = MicrofinanceContract::new(env.clone());
    assert_eq!(l.repay_loan(1), Err(LoanError::NotFound));
    l.issue_loan(who.clone(), 300);
    let before = stats_of(&l);
    assert_eq!(l.repay_loan(0), Err(LoanError::NotFound));
    assert_eq!(l.repay_loan(2), Err(LoanError::NotFound));
    assert_eq!(l.repay_loan(u64::MAX), Err(LoanError::NotFound));
    assert_eq!(stats_of(&l), before);
    assert!(!l.view_loan(1).repaid);
    assert_eq!(l.view_loan(1).repaid_time, 0);
}

#[test]
fn repaying_twice_fails_the_second_time() {
    let env = Env::default();
    env.ledger().set_timestamp(50);
    let who = Address::generate(&env);
    let mut l = MicrofinanceContract::new(env.clone());
    l.issue_loan(who.clone(), 80);
    l.issue_loan(who.clone(), 20);
    assert_eq!(stats_of(&l), (2, 2, 0, 100));
    assert_eq!(l.repay_loan(2), Ok(()));
    assert_eq!(stats_of(&l), (2, 1, 1, 100));
    env.ledger().set_timestamp(60);
    assert_eq!(l.repay_loan(2), Err(LoanError::AlreadyRepaid));
    assert_eq!(stats_of(&l), (2, 1, 1, 100));
    assert_eq!(l.view_loan(2).repaid_time, 50);
}

#[test]
fn view_loan_of_unissued_id_is_the_sentinel() {
    let env = Env::default();
    let mut l = MicrofinanceContract::new(env.clone());
    let s = l.view_loan(1);
    assert_eq!(s.loan_id, 0);
    assert_eq!(s.amount, 0);
    assert_eq!(s.issued_time, 0);
    assert!(!s.repaid);
    assert_eq!(s.repaid_time, 0);
    assert!(s.borrower == Address::from_str(&env, ZERO_ACCOUNT));
    l.issue_loan(Address::generate(&env), 1);
    assert_eq!(l.view_loan(0).loan_id, 0);
    assert_eq!(l.view_loan(2).loan_id, 0);
}

#[test]
fn view_loan_returns_stored_fields_and_repayment_time() {
    let env = Env::default();
    env.ledger().set_timestamp(1_700_000_000);
    let who = Address::generate(&env);
    let mut l = MicrofinanceContract::new(env.clone());
    assert_eq!(l.issue_loan(who.clone(), 1234), 1);
    let loan = l.view_loan(1);
    assert_eq!(loan.loan_id, 1);
    assert!(loan.borrower == who);
    assert_eq!(loan.amount, 1234);
    assert_eq!(loan.issued_time, 1_700_000_000);
    assert!(!loan.repaid);
    assert_eq!(loan.repaid_time, 0);
    env.ledger().set_timestamp(1_700_000_900);
    assert_eq!(l.repay_loan(1), Ok(()));
    let loan = l.view_loan(1);
    assert!(loan.repaid);
    assert_eq!(loan.repaid_time, 1_700_000_900);
    assert_eq!(loan.issued_time, 1_700_000_000);
    assert_eq!(loan.amount, 1234);
}

#[test]
fn fresh_ledger_has_zero_stats() {
    let env = Env::default();
    let l = MicrofinanceContract::new(env);
    assert_eq!(stats_of(&l), (0, 0, 0, 0));
    assert!(l.view_loan_stats() == LoanStats::new());
}

#[test]
fn explicit_times_are_recorded() {
    let env = Env::default();
    let who = Address::generate(&env);
    let mut l = MicrofinanceContract::new(env.clone());
    assert_eq!(l.issue_loan_at(who.clone(), 9, 11), 1);
    assert_eq!(l.view_loan(1).issued_time, 11);
    assert_eq!(l.repay_loan_at(1, 22), Ok(()));
    assert_eq!(l.view_loan(1).repaid_time, 22);
    assert_eq!(l.repay_loan_at(1, 33), Err(LoanError::AlreadyRepaid));
    assert_eq!(l.repay_loan_at(7, 33), Err(LoanError::NotFound));
    assert_eq!(l.view_loan(1).repaid_time, 22);
}

#[test]
fn zero_amount_loans_are_allowed() {
    let env = Env::default();
    let mut l = MicrofinanceContract::new(env.clone());
    assert!(l.can_issue(0));
    assert_eq!(l.issue_loan(Address::generate(&env), 0), 1);
    assert_eq!(stats_of(&l), (1, 1, 0, 0));
}

#[test]
fn disbursed_total_up_to_the_largest_amount() {
    let env = Env::default();
    let who = Address::generate(&env);
    let mut l = MicrofinanceContract::new(env.clone());
    assert!(l.can_issue(u64::MAX));
    l.issue_loan(who.clone(), u64::MAX - 1);
    assert!(l.can_issue(1));
    assert!(!l.can_issue(2));
    l.issue_loan(who.clone(), 1);
    assert_eq!(stats_of(&l), (2, 2, 0, u64::MAX));
    assert!(!l.can_issue(1));
    assert!(l.can_issue(0));
}

fn record(who: &Address, loan_id: u64, amount: u64, repaid_time: u64) -> Loan {
    Loan {
        loan_id,
        borrower: who.clone(),
        amount,
        issued_time: 5,
        repaid: repaid_time != 0,
        repaid_time,
    }
}

fn stats(total_loans: u64, active_loans: u64, repaid_loans: u64, total_disbursed: u64) -> LoanStats {
    LoanStats { total_loans, active_loans, repaid_loans, total_disbursed }
}

#[test]
fn consistent_records_reload_into_a_ledger() {
    let env = Env::default();
    let who = Address::generate(&env);
    let loans = vec![record(&who, 1, 100, 0), record(&who, 2, 50, 9)];
    let mut l = MicrofinanceContract::from_records(env.clone(), loans, stats(2, 1, 1, 150))
        .expect("records are consistent");
    assert_eq!(stats_of(&l), (2, 1, 1, 150));
    assert_eq!(l.view_loan(2).repaid_time, 9);
    assert_eq!(l.repay_loan_at(2, 10), Err(LoanError::AlreadyRepaid));
    assert_eq!(l.issue_loan_at(who.clone(), 1, 11), 3);
    assert_eq!(l.repay_loan_at(1, 12), Ok(()));
    assert_eq!(stats_of(&l), (3, 1, 2, 151));
    assert!(MicrofinanceContract::from_records(env.clone(), Vec::new(), LoanStats::new()).is_some());
}

#[test]
fn inconsistent_records_are_refused() {
    let env = Env::default();
    let who = Address::generate(&env);
    let good = || vec![record(&who, 1, 100, 0), record(&who, 2, 50, 9)];
    let refused = |loans: Vec<Loan>, s: LoanStats| {
        MicrofinanceContract::from_records(env.clone(), loans, s).is_none()
    };
    assert!(!refused(good(), stats(2, 1, 1, 150)));
    assert!(refused(vec![record(&who, 2, 100, 0)], stats(1, 1, 0, 100)));
    assert!(refused(good(), stats(3, 2, 1, 150)));
    assert!(refused(good(), stats(2, 2, 0, 150)));
    assert!(refused(good(), stats(2, 0, 1, 150)));
    assert!(refused(good(), stats(2, 1, 1, 151)));
    let mut active_with_time = record(&who, 1, 100, 0);
    active_with_time.repaid_time = 3;
    assert!(refused(vec![active_with_time], stats(1, 1, 0, 100)));
    assert!(refused(Vec::new(), stats(0, 0, 0, 1)));
}
