//! Bookkeeping core of a micro-lending ledger: sequential loan issuance,
//! one-time repayment and running aggregate statistics.

pub mod host;
pub mod loan;
pub mod ledger;
pub mod laws;
