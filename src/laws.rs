//! Properties of the ledger that span several operations.

use crate::ledger::{lemma_issue_consistent, lemma_repay_consistent, LedgerModel};
use crate::loan::{repaid_count, total_amount, LoanError, LoanStats};
use soroban_sdk::Address;
use vstd::prelude::*;

verus! {

/// One operation on a ledger, with the time at which it runs.
pub enum LedgerOp {
    Issue(Address, u64, u64),
    Repay(u64, u64),
}

/// The ledger after `op`. An issuance that would overflow the 64-bit
/// counters is not made, and a refused repayment changes nothing.
pub open spec fn apply_op(m: LedgerModel, op: LedgerOp) -> LedgerModel {
    match op {
        LedgerOp::Issue(borrower, amount, now) => if m.can_issue(amount) {
            m.issue(borrower, amount, now)
        } else {
            m
        },
        LedgerOp::Repay(loan_id, now) => match m.repay(loan_id, now) {
            Ok(n) => n,
            Err(_) => m,
        },
    }
}

/// The ledger after `ops`, in order.
pub open spec fn apply_all(m: LedgerModel, ops: Seq<LedgerOp>) -> LedgerModel
    decreases ops.len(),
{
    if ops.len() == 0 {
        m
    } else {
        apply_op(apply_all(m, ops.drop_last()), ops.last())
    }
}

/// The ledger after issuing loans for `calls` (borrower, amount, time), in order.
pub open spec fn issue_all(m: LedgerModel, calls: Seq<(Address, u64, u64)>) -> LedgerModel
    decreases calls.len(),
{
    if calls.len() == 0 {
        m
    } else {
        let c = calls.last();
        issue_all(m, calls.drop_last()).issue(c.0, c.1, c.2)
    }
}

/// Issuing loans on a fresh ledger hands out the identifiers 1, 2, 3, ... in
/// call order: the call at position `i` gets `i + 1`, and its record holds
/// that call's borrower, amount and time.
pub proof fn law_ids_in_call_order(calls: Seq<(Address, u64, u64)>)
    requires
        calls.len() <= u64::MAX,
    ensures
        issue_all(LedgerModel::empty(), calls).count == calls.len(),
        issue_all(LedgerModel::empty(), calls).loans.len() == calls.len(),
        forall|i: int|
            0 <= i < calls.len() ==> {
                let l = #[trigger] issue_all(LedgerModel::empty(), calls).loans[i];
                &&& l.loan_id == i + 1
                &&& l.borrower == calls[i].0
                &&& l.amount == calls[i].1
                &&& l.issued_time == calls[i].2
            },
    decreases calls.len(),
{
    if calls.len() > 0 {
        let prefix = calls.drop_last();
        law_ids_in_call_order(prefix);
        let before = issue_all(LedgerModel::empty(), prefix);
        let after = issue_all(LedgerModel::empty(), calls);
        assert forall|i: int| 0 <= i < calls.len() implies {
            let l = #[trigger] after.loans[i];
            &&& l.loan_id == i + 1
            &&& l.borrower == calls[i].0
            &&& l.amount == calls[i].1
            &&& l.issued_time == calls[i].2
        } by {
            if i < prefix.len() {
                assert(after.loans[i] == before.loans[i]);
                assert(calls[i] == prefix[i]);
            }
        }
    }
}

/// After any sequence of operations on a fresh ledger, the ledger is
/// consistent: `total_loans == active_loans + repaid_loans`, `total_loans`
/// counts the records, `repaid_loans` the repaid ones, and `total_disbursed`
/// is the sum of all issued amounts.
pub proof fn law_stats_balanced(ops: Seq<LedgerOp>)
    ensures
        apply_all(LedgerModel::empty(), ops).consistent(),
        ({
            let m = apply_all(LedgerModel::empty(), ops);
            &&& m.stats.total_loans == m.stats.active_loans + m.stats.repaid_loans
            &&& m.stats.total_loans == m.loans.len()
            &&& m.stats.repaid_loans == repaid_count(m.loans)
            &&& m.stats.total_disbursed == total_amount(m.loans)
        }),
    decreases ops.len(),
{
    if ops.len() == 0 {
        law_fresh_stats_zero();
    } else {
        law_stats_balanced(ops.drop_last());
        let m = apply_all(LedgerModel::empty(), ops.drop_last());
        match ops.last() {
            LedgerOp::Issue(borrower, amount, now) => {
                if m.can_issue(amount) {
                    lemma_issue_consistent(m, borrower, amount, now);
                }
            },
            LedgerOp::Repay(loan_id, now) => {
                lemma_repay_consistent(m, loan_id, now);
            },
        }
    }
}

/// Repaying an active loan twice: the first repayment marks it repaid, takes
/// one from `active_loans` and adds one to `repaid_loans`; the second fails
/// with `AlreadyRepaid`, so the ledger stays as the first left it.
pub proof fn law_repay_twice(m: LedgerModel, loan_id: u64, first: u64, second: u64)
    requires
        m.consistent(),
        m.is_issued(loan_id),
        !m.loan(loan_id).repaid,
    ensures
        m.repay(loan_id, first) is Ok,
        ({
            let n = m.repay(loan_id, first)->Ok_0;
            &&& n.loan(loan_id).repaid
            &&& n.stats.active_loans == m.stats.active_loans - 1
            &&& n.stats.repaid_loans == m.stats.repaid_loans + 1
            &&& n.stats.total_loans == m.stats.total_loans
            &&& n.stats.total_disbursed == m.stats.total_disbursed
            &&& n.repay(loan_id, second) == Err::<LedgerModel, LoanError>(
                LoanError::AlreadyRepaid,
            )
        }),
{
    lemma_repay_consistent(m, loan_id, first);
}

/// An issued loan has `repaid_time == 0` while it is active, and a nonzero
/// one right after a repayment made at a nonzero time.
pub proof fn law_repaid_time(m: LedgerModel, loan_id: u64, now: u64)
    requires
        m.consistent(),
        m.is_issued(loan_id),
    ensures
        !m.loan(loan_id).repaid ==> m.loan(loan_id).repaid_time == 0,
        now > 0 && !m.loan(loan_id).repaid ==> m.repay(loan_id, now)->Ok_0.loan(
            loan_id,
        ).repaid_time != 0,
{
    assert(m.loans[loan_id - 1].repaid || m.loans[loan_id - 1].repaid_time == 0);
}

/// A fresh ledger is consistent and its statistics are all zero.
pub proof fn law_fresh_stats_zero()
    ensures
        LedgerModel::empty().consistent(),
        LedgerModel::empty().stats == LoanStats::zero(),
{
    assert(total_amount(Seq::empty()) == 0);
    assert(repaid_count(Seq::empty()) == 0);
}

} // verus!
