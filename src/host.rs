//! The soroban items that the ledger relies on.

use soroban_sdk::{Address, Env};
use vstd::prelude::*;

verus! {

/// A borrower's identity: an opaque, host-verified principal.
#[verifier::external_type_specification]
#[verifier::external_body]
pub struct ExAddress(Address);

/// The handle on the hosting environment.
#[verifier::external_type_specification]
#[verifier::external_body]
pub struct ExEnv(Env);

/// Relies on the derived `Clone` of `soroban_sdk::Address`, which copies the
/// environment handle and the host object handle: the copy is the same address.
pub assume_specification[ <Address as Clone>::clone ](a: &Address) -> (r: Address)
    ensures
        r == *a,
;

/// The strkey of the all-zero ed25519 account, which no borrower holds.
pub open spec fn is_zero_account_strkey(s: Seq<char>) -> bool {
    s == "GAAAAAAAAAAAAAAAAAAAAAAAAAAAAAAAAAAAAAAAAAAAAAAAAAAAAWHF"@
}

/// Relies on `soroban_sdk::Ledger::timestamp`: the close time of the current
/// ledger. Nothing is promised of its value.
#[verifier::external_body]
pub(crate) fn ledger_timestamp(env: &Env) -> (r: u64) {
    env.ledger().timestamp()
}

/// Relies on `soroban_sdk::Address::from_str`, which panics on any strkey
/// that is not a valid account or contract key: it is called on the
/// all-zero account's key only.
#[verifier::external_body]
pub(crate) fn address_from_strkey(env: &Env, strkey: &str) -> (r: Address)
    requires
        is_zero_account_strkey(strkey@),
{
    Address::from_str(env, strkey)
}

} // verus!
