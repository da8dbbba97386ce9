use vstd::prelude::*;

verus! {

/// A ledger account as the reward logic sees it: its balance, in the
/// smallest indivisible unit.
#[derive(Debug, Clone, Copy, PartialEq, Eq, Structural)]
pub struct Account {
    pub lamports: u64,
}

/// A reading of the host clock.
#[derive(Debug, Clone, Copy, PartialEq, Eq, Structural)]
pub struct Clock {
    pub slot: u64,
    pub unix_timestamp: i64,
}

} // verus!
