//! Daily staking rewards paid from a stake account to a user account,
//! gated by a digest check against a pre-recorded commitment.

pub mod account;
pub mod digest;
pub mod error;
pub mod rewards;

pub use account::{Account, Clock};
pub use digest::Digest;
pub use error::StakeError;
pub use rewards::{calculate_rewards, distribute_rewards, transfer_reward, verify_reward_distribution};

use vstd::prelude::*;

verus! {

/// The entry point: distributes one day's reward over `accounts` (stake
/// account first, user account second). The instruction payload is not
/// read.
pub fn process_instruction(
    accounts: &mut Vec<Account>,
    _instruction_data: &[u8],
    clock: Option<Clock>,
    commitment: &Digest,
    expected: &Digest,
) -> (r: Result<(), StakeError>)
    ensures
        match rewards::distribution_outcome(
            old(accounts)@,
            clock is Some,
            commitment.bytes@,
            expected.bytes@,
        ) {
            Ok(after) => r == Ok::<(), StakeError>(()) && final(accounts)@ == after,
            Err(e) => r == Err::<(), StakeError>(e) && final(accounts)@ == old(accounts)@,
        },
{
    distribute_rewards(accounts, clock, commitment, expected)
}

} // verus!
