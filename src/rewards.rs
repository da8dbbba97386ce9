use vstd::prelude::*;

use crate::account::{Account, Clock};
use crate::digest::{digest_matches, sha256_of, verification_digest, verification_message, Digest};
use crate::error::StakeError;

verus! {

/// Annual reward rate, in percent.
pub const ANNUAL_RATE_PERCENT: u64 = 5;

/// Denominator of the annual rate.
pub const PERCENT: u64 = 100;

/// Number of accrual periods (days) in a year.
pub const PERIODS_PER_YEAR: u64 = 365;

/// The reward for one day on `balance`: the annual amount, truncated,
/// then divided over the days of the year, truncated again.
pub open spec fn reward_of(balance: int) -> int {
    (balance * ANNUAL_RATE_PERCENT / PERCENT as int) / PERIODS_PER_YEAR as int
}

/// What `calculate_rewards` returns on `balance`: `Overflow` when
/// `balance * 5` does not fit in a `u64`, the daily reward otherwise.
pub open spec fn reward_outcome(balance: u64) -> Result<u64, StakeError> {
    if balance * ANNUAL_RATE_PERCENT > u64::MAX {
        Err(StakeError::Overflow)
    } else {
        Ok(reward_of(balance as int) as u64)
    }
}

/// The daily reward never exceeds the balance it is computed from.
pub proof fn lemma_reward_bounded(balance: int)
    requires
        0 <= balance,
    ensures
        0 <= reward_of(balance) <= balance,
{
    assert(0 <= (balance * 5 / 100) / 365 <= balance) by (nonlinear_arith)
        requires
            0 <= balance,
    ;
}

/// The reward is monotonic in the balance: a larger balance never earns
/// less, and where the larger balance is accepted so is the smaller one.
pub proof fn lemma_reward_monotonic(a: u64, b: u64)
    requires
        a <= b,
    ensures
        reward_of(a as int) <= reward_of(b as int),
        reward_outcome(b) is Ok ==> reward_outcome(a) is Ok && reward_outcome(a)->Ok_0
            <= reward_outcome(b)->Ok_0,
{
    assert(a * 5 <= b * 5);
    assert(a * 5 / 100 <= b * 5 / 100) by (nonlinear_arith)
        requires
            a * 5 <= b * 5,
    ;
    assert((a * 5 / 100) / 365 <= (b * 5 / 100) / 365) by (nonlinear_arith)
        requires
            a * 5 / 100 <= b * 5 / 100,
    ;
    lemma_reward_bounded(a as int);
    lemma_reward_bounded(b as int);
}

/// Computes the daily reward on `user_holdings`. The multiplication by
/// the rate is checked: where it does not fit, the result is `Overflow`
/// rather than a wrapped value. The result is a function of the balance
/// alone, so two calls on one balance agree.
pub fn calculate_rewards(user_holdings: u64) -> (r: Result<u64, StakeError>)
    ensures
        r == reward_outcome(user_holdings),
        r is Ok ==> r->Ok_0 == reward_of(user_holdings as int),
        r is Err <==> user_holdings * 5 > u64::MAX,
{
    proof {
        lemma_reward_bounded(user_holdings as int);
    }
    match user_holdings.checked_mul(ANNUAL_RATE_PERCENT) {
        Some(annual) => Ok(annual / PERCENT / PERIODS_PER_YEAR),
        None => Err(StakeError::Overflow),
    }
}

} // verus!

verus! {

/// Whether a reward to a user holding `user_balance` is authorized: the
/// digest of the verification message equals the expected digest.
pub open spec fn is_authorized(user_balance: u64, commitment: Seq<u8>, expected: Seq<u8>) -> bool {
    sha256_of(verification_message(user_balance, commitment)) == expected
}

/// The balances of the stake and user accounts after a transfer of
/// `reward`, or the error that rejects it. An unauthorized or zero
/// transfer changes nothing; a transfer larger than the stake balance,
/// or one that would carry the user balance past `u64::MAX`, is rejected.
pub open spec fn transfer_outcome(stake: u64, user: u64, reward: u64, authorized: bool) -> Result<
    (u64, u64),
    StakeError,
> {
    if !authorized || reward == 0 {
        Ok((stake, user))
    } else if reward > stake {
        Err(StakeError::InsufficientBalance)
    } else if user + reward > u64::MAX {
        Err(StakeError::Overflow)
    } else {
        Ok(((stake - reward) as u64, (user + reward) as u64))
    }
}

/// The accounts after one distribution, or the error that stops it. The
/// first account is the stake account, the second the user account;
/// `clock_read` says whether the host supplied the clock.
pub open spec fn distribution_outcome(
    accounts: Seq<Account>,
    clock_read: bool,
    commitment: Seq<u8>,
    expected: Seq<u8>,
) -> Result<Seq<Account>, StakeError> {
    if accounts.len() < 2 {
        Err(StakeError::MissingAccount)
    } else if !clock_read {
        Err(StakeError::ClockUnavailable)
    } else {
        let stake = accounts[0].lamports;
        let user = accounts[1].lamports;
        match reward_outcome(stake) {
            Err(e) => Err(e),
            Ok(reward) => match transfer_outcome(
                stake,
                user,
                reward,
                is_authorized(user, commitment, expected),
            ) {
                Err(e) => Err(e),
                Ok((s, u)) => Ok(
                    accounts.update(0, Account { lamports: s }).update(1, Account { lamports: u }),
                ),
            },
        }
    }
}

/// Checks the commitment for a reward to `user_account`: hashes the
/// user's balance (8 bytes, little-endian) followed by the commitment,
/// and compares the digest with `expected`.
pub fn verify_reward_distribution(user_account: &Account, reward_hash: &Digest, expected: &Digest) -> (r:
    bool)
    ensures
        r == is_authorized(user_account.lamports, reward_hash.bytes@, expected.bytes@),
{
    let computed = verification_digest(user_account.lamports, reward_hash);
    digest_matches(&computed, expected)
}

/// Moves `reward` from `stake` to `user` when `authorized` holds. Both
/// balances change together or neither does.
pub fn transfer_reward(stake: &mut Account, user: &mut Account, reward: u64, authorized: bool) -> (r:
    Result<(), StakeError>)
    ensures
        match transfer_outcome(old(stake).lamports, old(user).lamports, reward, authorized) {
            Ok((s, u)) => r == Ok::<(), StakeError>(()) && final(stake).lamports == s
                && final(user).lamports == u,
            Err(e) => r == Err::<(), StakeError>(e) && *final(stake) == *old(stake) && *final(user)
                == *old(user),
        },
        final(stake).lamports + final(user).lamports == old(stake).lamports + old(
            user,
        ).lamports,
{
    if !authorized || reward == 0 {
        return Ok(());
    }
    if reward > stake.lamports {
        return Err(StakeError::InsufficientBalance);
    }
    match user.lamports.checked_add(reward) {
        None => Err(StakeError::Overflow),
        Some(credited) => {
            stake.lamports = stake.lamports - reward;
            user.lamports = credited;
            Ok(())
        },
    }
}

/// Pays one day's reward from the stake account (`accounts[0]`) to the
/// user account (`accounts[1]`), if the commitment checks out against
/// `expected`. `clock` is the host's clock reading, `None` where the host
/// could not supply it. On every error the accounts are left as they were;
/// a failed check is no error and changes nothing.
pub fn distribute_rewards(
    accounts: &mut Vec<Account>,
    clock: Option<Clock>,
    commitment: &Digest,
    expected: &Digest,
) -> (r: Result<(), StakeError>)
    ensures
        match distribution_outcome(
            old(accounts)@,
            clock is Some,
            commitment.bytes@,
            expected.bytes@,
        ) {
            Ok(after) => r == Ok::<(), StakeError>(()) && final(accounts)@ == after,
            Err(e) => r == Err::<(), StakeError>(e) && final(accounts)@ == old(accounts)@,
        },
{
    if accounts.len() < 2 {
        return Err(StakeError::MissingAccount);
    }
    if clock.is_none() {
        return Err(StakeError::ClockUnavailable);
    }
    let mut stake = accounts[0];
    let mut user = accounts[1];
    let reward = match calculate_rewards(stake.lamports) {
        Ok(reward) => reward,
        Err(e) => return Err(e),
    };
    let authorized = verify_reward_distribution(&user, commitment, expected);
    match transfer_reward(&mut stake, &mut user, reward, authorized) {
        Ok(()) => {
            accounts.set(0, stake);
            accounts.set(1, user);
            Ok(())
        },
        Err(e) => Err(e),
    }
}

} // verus!

verus! {

/// Conservation: a successful distribution moves value between the stake
/// and user accounts without creating or destroying any, and touches no
/// other account.
pub proof fn lemma_distribution_conserves_total(
    accounts: Seq<Account>,
    clock_read: bool,
    commitment: Seq<u8>,
    expected: Seq<u8>,
)
    requires
        distribution_outcome(accounts, clock_read, commitment, expected) is Ok,
    ensures
        ({
            let after = distribution_outcome(accounts, clock_read, commitment, expected)->Ok_0;
            &&& after.len() == accounts.len()
            &&& after[0].lamports + after[1].lamports == accounts[0].lamports
                + accounts[1].lamports
            &&& forall|i: int| 2 <= i < accounts.len() ==> after[i] == accounts[i]
        }),
{
}

/// No overdraw: a transfer larger than the stake balance is rejected, not
/// truncated, and an accepted one either changes nothing or moves exactly
/// `reward`.
pub proof fn lemma_transfer_never_overdraws(stake: u64, user: u64, reward: u64, authorized: bool)
    ensures
        authorized && reward > stake ==> transfer_outcome(stake, user, reward, authorized)
            == Err::<(u64, u64), StakeError>(StakeError::InsufficientBalance),
        transfer_outcome(stake, user, reward, authorized) is Ok ==> {
            let (s, u) = transfer_outcome(stake, user, reward, authorized)->Ok_0;
            (s == stake && u == user) || (s == stake - reward && u == user + reward)
        },
{
}

/// The reward that a distribution computes never exceeds the stake
/// balance, so a distribution is never refused for want of funds.
pub proof fn lemma_distribution_never_overdraws(
    accounts: Seq<Account>,
    clock_read: bool,
    commitment: Seq<u8>,
    expected: Seq<u8>,
)
    ensures
        distribution_outcome(accounts, clock_read, commitment, expected) != Err::<
            Seq<Account>,
            StakeError,
        >(StakeError::InsufficientBalance),
{
    if accounts.len() >= 2 {
        lemma_reward_bounded(accounts[0].lamports as int);
    }
}

/// A failed check is a successful no-op: when the digest does not match,
/// the distribution succeeds and every balance stays as it was.
pub proof fn lemma_unauthorized_is_noop(
    accounts: Seq<Account>,
    clock_read: bool,
    commitment: Seq<u8>,
    expected: Seq<u8>,
)
    requires
        accounts.len() >= 2,
        clock_read,
        accounts[0].lamports * ANNUAL_RATE_PERCENT <= u64::MAX,
        !is_authorized(accounts[1].lamports, commitment, expected),
    ensures
        distribution_outcome(accounts, clock_read, commitment, expected) == Ok::<
            Seq<Account>,
            StakeError,
        >(accounts),
{
    assert(accounts.update(0, Account { lamports: accounts[0].lamports }).update(
        1,
        Account { lamports: accounts[1].lamports },
    ) =~= accounts);
}

/// With fewer than two accounts a distribution fails with
/// `MissingAccount` (and, like every error, changes nothing).
pub proof fn lemma_missing_account_rejected(
    accounts: Seq<Account>,
    clock_read: bool,
    commitment: Seq<u8>,
    expected: Seq<u8>,
)
    requires
        accounts.len() < 2,
    ensures
        distribution_outcome(accounts, clock_read, commitment, expected) == Err::<
            Seq<Account>,
            StakeError,
        >(StakeError::MissingAccount),
{
}

/// A stake balance whose product with the rate does not fit in a `u64`
/// makes the distribution fail with `Overflow`, whatever the check says.
pub proof fn lemma_overflow_rejected(
    accounts: Seq<Account>,
    clock_read: bool,
    commitment: Seq<u8>,
    expected: Seq<u8>,
)
    requires
        accounts.len() >= 2,
        clock_read,
        accounts[0].lamports * ANNUAL_RATE_PERCENT > u64::MAX,
    ensures
        distribution_outcome(accounts, clock_read, commitment, expected) == Err::<
            Seq<Account>,
            StakeError,
        >(StakeError::Overflow),
{
}

} // verus!
