use soroban_sdk::Address;
use vstd::prelude::*;

verus! {

/// One disbursement, tracked from issuance to repayment.
#[derive(Clone, Debug)]
pub struct Loan {
    pub loan_id: u64,
    pub borrower: Address,
    /// Amount in the asset's smallest unit.
    pub amount: u64,
    pub issued_time: u64,
    pub repaid: bool,
    /// Zero until the loan is repaid.
    pub repaid_time: u64,
}

/// Aggregate statistics over every loan ever issued.
#[derive(Clone, Copy, Debug, PartialEq, Eq, Structural)]
pub struct LoanStats {
    pub total_loans: u64,
    pub active_loans: u64,
    pub repaid_loans: u64,
    /// Gross amount disbursed; repayment leaves it unchanged.
    pub total_disbursed: u64,
}

/// The key under which a loan record is filed.
#[derive(Clone, Copy, Debug, PartialEq, Eq, Structural)]
pub enum LoanBook {
    Loan(u64),
}

/// Why a repayment was refused.
#[derive(Clone, Copy, Debug, PartialEq, Eq, Structural)]
pub enum LoanError {
    /// No loan was issued under the identifier.
    NotFound,
    /// The loan was repaid before.
    AlreadyRepaid,
}

impl LoanStats {
    pub open spec fn zero() -> LoanStats {
        LoanStats { total_loans: 0, active_loans: 0, repaid_loans: 0, total_disbursed: 0 }
    }

    /// The all-zero statistics of a ledger that was never used.
    pub fn new() -> (r: LoanStats)
        ensures
            r == LoanStats::zero(),
    {
        LoanStats { total_loans: 0, active_loans: 0, repaid_loans: 0, total_disbursed: 0 }
    }
}

/// Sum of the amounts of `loans`.
pub open spec fn total_amount(loans: Seq<Loan>) -> int
    decreases loans.len(),
{
    if loans.len() == 0 {
        0
    } else {
        total_amount(loans.drop_last()) + loans.last().amount
    }
}

/// Number of repaid loans in `loans`.
pub open spec fn repaid_count(loans: Seq<Loan>) -> int
    decreases loans.len(),
{
    if loans.len() == 0 {
        0
    } else {
        repaid_count(loans.drop_last()) + if loans.last().repaid { 1int } else { 0int }
    }
}

} // verus!
