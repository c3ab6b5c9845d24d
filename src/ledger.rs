use crate::host::{address_from_strkey, is_zero_account_strkey, ledger_timestamp};
use crate::loan::{repaid_count, total_amount, Loan, LoanBook, LoanError, LoanStats};
use soroban_sdk::{Address, Env};
use vstd::prelude::*;

verus! {

/// The abstract state of a ledger: the issuing counter, the loan records in
/// order of issuance (the loan with identifier `i` at index `i - 1`) and the
/// aggregate statistics.
pub struct LedgerModel {
    pub count: nat,
    pub loans: Seq<Loan>,
    pub stats: LoanStats,
}

impl LedgerModel {
    /// The ledger made of stored records: its counter is the number of records.
    pub open spec fn of_records(loans: Seq<Loan>, stats: LoanStats) -> LedgerModel {
        LedgerModel { count: loans.len(), loans, stats }
    }

    /// A ledger that was never used.
    pub open spec fn empty() -> LedgerModel {
        LedgerModel { count: 0, loans: Seq::empty(), stats: LoanStats::zero() }
    }

    /// The invariants that every operation keeps.
    pub open spec fn consistent(self) -> bool {
        &&& self.count == self.loans.len()
        &&& self.count <= u64::MAX
        &&& forall|i: int| 0 <= i < self.loans.len() ==> #[trigger] self.loans[i].loan_id == i + 1
        &&& forall|i: int|
            0 <= i < self.loans.len() ==> (#[trigger] self.loans[i].repaid
                || self.loans[i].repaid_time == 0)
        &&& self.stats.total_loans == self.count
        &&& self.stats.total_loans == self.stats.active_loans + self.stats.repaid_loans
        &&& self.stats.repaid_loans == repaid_count(self.loans)
        &&& self.stats.total_disbursed == total_amount(self.loans)
    }

    /// Whether `loan_id` was handed out by an earlier issuance.
    pub open spec fn is_issued(self, loan_id: u64) -> bool {
        1 <= loan_id <= self.loans.len()
    }

    /// The record of an issued loan.
    pub open spec fn loan(self, loan_id: u64) -> Loan {
        self.loans[loan_id - 1]
    }

    /// Whether one more loan of `amount` fits the 64-bit counters.
    pub open spec fn can_issue(self, amount: u64) -> bool {
        self.count < u64::MAX && self.stats.total_disbursed + amount <= u64::MAX
    }

    /// The ledger after issuing a loan of `amount` to `borrower` at time `now`.
    pub open spec fn issue(self, borrower: Address, amount: u64, now: u64) -> LedgerModel {
        LedgerModel {
            count: self.count + 1,
            loans: self.loans.push(
                Loan {
                    loan_id: (self.count + 1) as u64,
                    borrower,
                    amount,
                    issued_time: now,
                    repaid: false,
                    repaid_time: 0,
                },
            ),
            stats: LoanStats {
                total_loans: (self.stats.total_loans + 1) as u64,
                active_loans: (self.stats.active_loans + 1) as u64,
                repaid_loans: self.stats.repaid_loans,
                total_disbursed: (self.stats.total_disbursed + amount) as u64,
            },
        }
    }

    /// The outcome of repaying `loan_id` at time `now`: the new ledger, or
    /// the reason for refusal (the ledger then stays as it is).
    pub open spec fn repay(self, loan_id: u64, now: u64) -> Result<LedgerModel, LoanError> {
        if !self.is_issued(loan_id) {
            Err(LoanError::NotFound)
        } else if self.loan(loan_id).repaid {
            Err(LoanError::AlreadyRepaid)
        } else {
            let l = self.loan(loan_id);
            Ok(
                LedgerModel {
                    count: self.count,
                    loans: self.loans.update(
                        loan_id - 1,
                        Loan {
                            loan_id: l.loan_id,
                            borrower: l.borrower,
                            amount: l.amount,
                            issued_time: l.issued_time,
                            repaid: true,
                            repaid_time: now,
                        },
                    ),
                    stats: LoanStats {
                        total_loans: self.stats.total_loans,
                        active_loans: (self.stats.active_loans - 1) as u64,
                        repaid_loans: (self.stats.repaid_loans + 1) as u64,
                        total_disbursed: self.stats.total_disbursed,
                    },
                },
            )
        }
    }
}

proof fn lemma_push_totals(s: Seq<Loan>, l: Loan)
    ensures
        total_amount(s.push(l)) == total_amount(s) + l.amount,
        repaid_count(s.push(l)) == repaid_count(s) + if l.repaid { 1int } else { 0int },
{
    assert(s.push(l).drop_last() =~= s);
}

proof fn lemma_repaid_count_bound(s: Seq<Loan>)
    ensures
        0 <= repaid_count(s) <= s.len(),
    decreases s.len(),
{
    if s.len() > 0 {
        lemma_repaid_count_bound(s.drop_last());
    }
}

/// Marking loan `k` as repaid, with its amount kept, adds one repaid loan and
/// leaves the total amount unchanged.
proof fn lemma_mark_repaid(s: Seq<Loan>, k: int, l: Loan)
    requires
        0 <= k < s.len(),
        !s[k].repaid,
        l.repaid,
        l.amount == s[k].amount,
    ensures
        total_amount(s.update(k, l)) == total_amount(s),
        repaid_count(s.update(k, l)) == repaid_count(s) + 1,
    decreases s.len(),
{
    let t = s.update(k, l);
    if k == s.len() - 1 {
        assert(t.drop_last() =~= s.drop_last());
    } else {
        assert(t.drop_last() =~= s.drop_last().update(k, l));
        lemma_mark_repaid(s.drop_last(), k, l);
    }
}

/// Issuing keeps the ledger consistent.
pub proof fn lemma_issue_consistent(m: LedgerModel, borrower: Address, amount: u64, now: u64)
    requires
        m.consistent(),
        m.can_issue(amount),
    ensures
        m.issue(borrower, amount, now).consistent(),
{
    let n = m.issue(borrower, amount, now);
    lemma_push_totals(m.loans, n.loans.last());
    lemma_repaid_count_bound(m.loans);
    assert forall|i: int| 0 <= i < n.loans.len() implies #[trigger] n.loans[i].loan_id == i + 1 by {
        if i < m.loans.len() {
            assert(n.loans[i] == m.loans[i]);
        }
    }
    assert forall|i: int| 0 <= i < n.loans.len() implies (#[trigger] n.loans[i].repaid
        || n.loans[i].repaid_time == 0) by {
        if i < m.loans.len() {
            assert(n.loans[i] == m.loans[i]);
        }
    }
}

/// A successful repayment keeps the ledger consistent; it is made only while
/// some loan is active.
pub proof fn lemma_repay_consistent(m: LedgerModel, loan_id: u64, now: u64)
    requires
        m.consistent(),
    ensures
        m.repay(loan_id, now) matches Ok(n) ==> n.consistent() && m.stats.active_loans >= 1,
{
    if let Ok(n) = m.repay(loan_id, now) {
        let k = loan_id - 1;
        lemma_mark_repaid(m.loans, k, n.loans[k]);
        lemma_repaid_count_bound(n.loans);
        assert forall|i: int| 0 <= i < n.loans.len() implies #[trigger] n.loans[i].loan_id == i
            + 1 by {
            if i != k {
                assert(n.loans[i] == m.loans[i]);
            }
        }
        assert forall|i: int| 0 <= i < n.loans.len() implies (#[trigger] n.loans[i].repaid
            || n.loans[i].repaid_time == 0) by {
            if i != k {
                assert(n.loans[i] == m.loans[i]);
            }
        }
    }
}

/// A micro-lending ledger bound to its hosting environment.
pub struct MicrofinanceContract {
    env: Env,
    loan_count: u64,
    loans: Vec<Loan>,
    stats: LoanStats,
}

impl View for MicrofinanceContract {
    type V = LedgerModel;

    closed spec fn view(&self) -> LedgerModel {
        LedgerModel { count: self.loan_count as nat, loans: self.loans@, stats: self.stats }
    }
}

impl MicrofinanceContract {
    pub open spec fn wf(&self) -> bool {
        self@.consistent()
    }

    /// An empty ledger in `env`.
    pub fn new(env: Env) -> (r: MicrofinanceContract)
        ensures
            r.wf(),
            r@ == LedgerModel::empty(),
    {
        let r = MicrofinanceContract { env, loan_count: 0, loans: Vec::new(), stats: LoanStats::new() };
        assert(r@.loans =~= Seq::<Loan>::empty());
        r
    }

    /// The ledger in `env` made of stored `loans` and `stats`, or `None` when
    /// they do not form a consistent ledger.
    pub fn from_records(env: Env, loans: Vec<Loan>, stats: LoanStats) -> (r: Option<
        MicrofinanceContract,
    >)
        ensures
            r is Some <==> LedgerModel::of_records(loans@, stats).consistent(),
            r matches Some(l) ==> l.wf() && l@ == LedgerModel::of_records(loans@, stats),
    {
        let n = loans.len();
        let mut sum: u128 = 0;
        let mut repaid: u64 = 0;
        let mut i: usize = 0;
        while i < n
            invariant
                n == loans@.len(),
                i <= n,
                sum == total_amount(loans@.take(i as int)),
                sum <= i * 0xFFFF_FFFF_FFFF_FFFFu128,
                repaid == repaid_count(loans@.take(i as int)),
                repaid <= i,
                forall|j: int| 0 <= j < i ==> #[trigger] loans@[j].loan_id == j + 1,
                forall|j: int|
                    0 <= j < i ==> (#[trigger] loans@[j].repaid || loans@[j].repaid_time == 0),
            decreases n - i,
        {
            let l = &loans[i];
            if l.loan_id as u128 != i as u128 + 1 || (!l.repaid && l.repaid_time != 0) {
                return None;
            }
            proof {
                assert(loans@.take(i + 1).drop_last() =~= loans@.take(i as int));
                assert(sum + l.amount <= (i + 1) * 0xFFFF_FFFF_FFFF_FFFFu128) by (nonlinear_arith)
                    requires
                        sum <= i * 0xFFFF_FFFF_FFFF_FFFFu128,
                        l.amount <= 0xFFFF_FFFF_FFFF_FFFFu128,
                ;
            }
            sum = sum + l.amount as u128;
            if l.repaid {
                repaid = repaid + 1;
            }
            i = i + 1;
        }
        assert(loans@.take(n as int) =~= loans@);
        if n as u128 != stats.total_loans as u128 || sum != stats.total_disbursed as u128
            || repaid != stats.repaid_loans || stats.active_loans as u128 + repaid as u128
            != n as u128 {
            return None;
        }
        let loan_count = n as u64;
        Some(MicrofinanceContract { env, loan_count, loans, stats })
    }

    /// The index of the record filed under `key`, if a loan was issued under it.
    fn find_loan(&self, key: LoanBook) -> (r: Option<usize>)
        requires
            self.wf(),
        ensures
            match key {
                LoanBook::Loan(id) => match r {
                    Some(i) => self@.is_issued(id) && i == id - 1,
                    None => !self@.is_issued(id),
                },
            },
    {
        match key {
            LoanBook::Loan(id) => {
                let n = self.loans.len();
                if 1 <= id && id <= self.loan_count {
                    assert(id - 1 < n);
                    Some((id - 1) as usize)
                } else {
                    None
                }
            },
        }
    }

    /// Whether a loan of `amount` can be issued without overflowing the
    /// 64-bit counter or the disbursed total.
    pub fn can_issue(&self, amount: u64) -> (r: bool)
        requires
            self.wf(),
        ensures
            r == self@.can_issue(amount),
    {
        self.loan_count < u64::MAX && amount <= u64::MAX - self.stats.total_disbursed
    }

    /// Issues a loan of `amount` to `borrower` at time `now` and returns its
    /// identifier, one more than the number of loans issued before. Zero
    /// amounts are allowed. An issuance that would overflow the 64-bit
    /// counter or disbursed total is not made: callers test `can_issue` first.
    pub fn issue_loan_at(&mut self, borrower: Address, amount: u64, now: u64) -> (loan_id: u64)
        requires
            old(self).wf(),
            old(self)@.can_issue(amount),
        ensures
            final(self).wf(),
            final(self)@ == old(self)@.issue(borrower, amount, now),
            loan_id == old(self)@.count + 1,
    {
        proof {
            lemma_issue_consistent(self@, borrower, amount, now);
        }
        let loan_id = self.loan_count + 1;
        let loan = Loan {
            loan_id,
            borrower,
            amount,
            issued_time: now,
            repaid: false,
            repaid_time: 0,
        };
        self.loans.push(loan);
        self.loan_count = loan_id;
        self.stats = LoanStats {
            total_loans: self.stats.total_loans + 1,
            active_loans: self.stats.active_loans + 1,
            repaid_loans: self.stats.repaid_loans,
            total_disbursed: self.stats.total_disbursed + amount,
        };
        loan_id
    }

    /// Issues a loan of `amount` to `borrower`, stamped with the current
    /// ledger time, and returns its identifier.
    pub fn issue_loan(&mut self, borrower: Address, amount: u64) -> (loan_id: u64)
        requires
            old(self).wf(),
            old(self)@.can_issue(amount),
        ensures
            final(self).wf(),
            exists|now: u64| final(self)@ == old(self)@.issue(borrower, amount, now),
            loan_id == old(self)@.count + 1,
    {
        let now = ledger_timestamp(&self.env);
        self.issue_loan_at(borrower, amount, now)
    }

    /// Marks loan `loan_id` as repaid at time `now`. Fails with `NotFound`
    /// when no loan was issued under it, and with `AlreadyRepaid` when it was
    /// repaid before; a failure changes nothing.
    pub fn repay_loan_at(&mut self, loan_id: u64, now: u64) -> (r: Result<(), LoanError>)
        requires
            old(self).wf(),
        ensures
            final(self).wf(),
            match old(self)@.repay(loan_id, now) {
                Ok(m) => r is Ok && final(self)@ == m,
                Err(e) => r == Err::<(), LoanError>(e) && final(self)@ == old(self)@,
            },
    {
        let i = match self.find_loan(LoanBook::Loan(loan_id)) {
            Some(i) => i,
            None => return Err(LoanError::NotFound),
        };
        if self.loans[i].repaid {
            return Err(LoanError::AlreadyRepaid);
        }
        proof {
            lemma_repay_consistent(self@, loan_id, now);
            lemma_repaid_count_bound(self.loans@);
            lemma_mark_repaid(
                self.loans@,
                i as int,
                Loan { repaid: true, repaid_time: now, ..self.loans@[i as int] },
            );
        }
        let old_loan = &self.loans[i];
        let loan = Loan {
            loan_id: old_loan.loan_id,
            borrower: old_loan.borrower.clone(),
            amount: old_loan.amount,
            issued_time: old_loan.issued_time,
            repaid: true,
            repaid_time: now,
        };
        self.loans.set(i, loan);
        self.stats = LoanStats {
            total_loans: self.stats.total_loans,
            active_loans: self.stats.active_loans - 1,
            repaid_loans: self.stats.repaid_loans + 1,
            total_disbursed: self.stats.total_disbursed,
        };
        proof {
            assert(self.loans@ =~= old(self)@.repay(loan_id, now)->Ok_0.loans);
        }
        Ok(())
    }

    /// Marks loan `loan_id` as repaid, stamped with the current ledger time.
    pub fn repay_loan(&mut self, loan_id: u64) -> (r: Result<(), LoanError>)
        requires
            old(self).wf(),
        ensures
            final(self).wf(),
            !old(self)@.is_issued(loan_id) ==> r == Err::<(), LoanError>(LoanError::NotFound)
                && final(self)@ == old(self)@,
            old(self)@.is_issued(loan_id) && old(self)@.loan(loan_id).repaid ==> r == Err::<
                (),
                LoanError,
            >(LoanError::AlreadyRepaid) && final(self)@ == old(self)@,
            old(self)@.is_issued(loan_id) && !old(self)@.loan(loan_id).repaid ==> r is Ok
                && exists|now: u64| old(self)@.repay(loan_id, now) == Ok::<LedgerModel, LoanError>(final(self)@),
    {
        let now = ledger_timestamp(&self.env);
        self.repay_loan_at(loan_id, now)
    }

    /// The record of loan `loan_id`, or, when no loan was issued under it, a
    /// sentinel whose identifier is 0, with zero amount and times, not repaid,
    /// held by the all-zero account.
    pub fn view_loan(&self, loan_id: u64) -> (r: Loan)
        requires
            self.wf(),
        ensures
            self@.is_issued(loan_id) ==> r == self@.loan(loan_id),
            !self@.is_issued(loan_id) ==> r.loan_id == 0 && r.amount == 0 && r.issued_time == 0
                && !r.repaid && r.repaid_time == 0,
    {
        match self.find_loan(LoanBook::Loan(loan_id)) {
            Some(i) => {
                let l = &self.loans[i];
                Loan {
                    loan_id: l.loan_id,
                    borrower: l.borrower.clone(),
                    amount: l.amount,
                    issued_time: l.issued_time,
                    repaid: l.repaid,
                    repaid_time: l.repaid_time,
                }
            },
            None => {
                proof {
                    reveal_strlit("GAAAAAAAAAAAAAAAAAAAAAAAAAAAAAAAAAAAAAAAAAAAAAAAAAAAAWHF");
                }
                let borrower = address_from_strkey(
                    &self.env,
                    "GAAAAAAAAAAAAAAAAAAAAAAAAAAAAAAAAAAAAAAAAAAAAAAAAAAAAWHF",
                );
                Loan { loan_id: 0, borrower, amount: 0, issued_time: 0, repaid: false, repaid_time: 0 }
            },
        }
    }

    /// The aggregate statistics; all zero before the first issuance.
    pub fn view_loan_stats(&self) -> (r: LoanStats)
        ensures
            r == self@.stats,
    {
        self.stats
    }
}

} // verus!
