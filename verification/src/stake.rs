//! The staking ledger: per-staker stakes with timestamps and accrued
//! rewards, a running total, and a fixed annual reward rate.

use vstd::prelude::*;
use crate::text::{dec_str, str_eq, u128_to_string};
use vstd::string::StringExecFns;

verus! {

/// One staker's position.
pub struct StakeInfo {
    pub staker: String,
    pub amount: u128,
    pub timestamp: u64,
    pub reward: u128,
}

/// The mathematical shape of a position.
#[verifier::ext_equal]
pub ghost struct StakeView {
    pub staker: Seq<char>,
    pub amount: u128,
    pub timestamp: u64,
    pub reward: u128,
}

impl View for StakeInfo {
    type V = StakeView;

    open spec fn view(&self) -> StakeView {
        StakeView {
            staker: self.staker@,
            amount: self.amount,
            timestamp: self.timestamp,
            reward: self.reward,
        }
    }
}

/// A request to stake.
pub struct StakeMsg {
    pub amount: u128,
}

/// A request to unstake.
pub struct UnstakeMsg {
    pub amount: u128,
}

/// A request to claim accrued rewards.
pub struct ClaimRewardsMsg {}

/// The map denoted by a sequence of positions, keyed by staker.
pub open spec fn holdings(s: Seq<StakeInfo>) -> Map<Seq<char>, StakeView>
    decreases s.len(),
{
    if s.len() == 0 {
        Map::empty()
    } else {
        holdings(s.drop_last()).insert(s.last().staker@, s.last()@)
    }
}

/// No two positions share a staker.
pub open spec fn unique_stakers(s: Seq<StakeInfo>) -> bool {
    forall|i: int, j: int|
        0 <= i < j < s.len() ==> (#[trigger] s[i]).staker@ != (#[trigger] s[j]).staker@
}

/// The sum of all staked amounts.
pub open spec fn staked_sum(s: Seq<StakeInfo>) -> int
    decreases s.len(),
{
    if s.len() == 0 {
        0int
    } else {
        staked_sum(s.drop_last()) + s.last().amount
    }
}

/// A staker matching no position is not in the holdings.
proof fn lemma_holdings_absent(s: Seq<StakeInfo>, k: Seq<char>)
    requires
        forall|i: int| 0 <= i < s.len() ==> (#[trigger] s[i]).staker@ != k,
    ensures
        !holdings(s).contains_key(k),
    decreases s.len(),
{
    if s.len() > 0 {
        lemma_holdings_absent(s.drop_last(), k);
    }
}

/// With unique stakers, the position at `i` gives the holdings at its key.
proof fn lemma_holdings_at(s: Seq<StakeInfo>, i: int)
    requires
        unique_stakers(s),
        0 <= i < s.len(),
    ensures
        holdings(s).contains_key(s[i].staker@),
        holdings(s)[s[i].staker@] == s[i]@,
    decreases s.len(),
{
    if i < s.len() - 1 {
        assert(unique_stakers(s.drop_last()));
        lemma_holdings_at(s.drop_last(), i);
        assert(s[i].staker@ != s.last().staker@);
    }
}

/// With unique stakers, removing the position at `i` removes exactly its key.
proof fn lemma_holdings_remove(s: Seq<StakeInfo>, i: int)
    requires
        unique_stakers(s),
        0 <= i < s.len(),
    ensures
        holdings(s.remove(i)) == holdings(s).remove(s[i].staker@),
        unique_stakers(s.remove(i)),
        forall|j: int|
            0 <= j < s.remove(i).len() ==> (#[trigger] s.remove(i)[j]).staker@ != s[i].staker@,
    decreases s.len(),
{
    let k = s[i].staker@;
    s.remove_ensures(i);
    assert forall|j: int| 0 <= j < s.remove(i).len() implies (#[trigger] s.remove(i)[j]).staker@
        != k by {
        if j < i {
            assert(s.remove(i)[j] == s[j]);
        } else {
            assert(s.remove(i)[j] == s[j + 1]);
        }
    }
    assert forall|a: int, b: int|
        0 <= a < b < s.remove(i).len() implies (#[trigger] s.remove(i)[a]).staker@ != (
    #[trigger] s.remove(i)[b]).staker@ by {
        if a < i && b < i {
            assert(s.remove(i)[a] == s[a] && s.remove(i)[b] == s[b]);
        } else if a < i {
            assert(s.remove(i)[a] == s[a] && s.remove(i)[b] == s[b + 1]);
        } else {
            assert(s.remove(i)[a] == s[a + 1] && s.remove(i)[b] == s[b + 1]);
        }
    }
    if i == s.len() - 1 {
        assert(s.remove(i) =~= s.drop_last());
        lemma_holdings_absent(s.drop_last(), k);
        assert(s.last() == s[i]);
        assert(holdings(s).remove(k) =~= holdings(s.drop_last()));
    } else {
        assert(unique_stakers(s.drop_last()));
        lemma_holdings_remove(s.drop_last(), i);
        assert(s.remove(i).drop_last() =~= s.drop_last().remove(i));
        assert(s.remove(i).last() == s.last());
        assert(k != s.last().staker@);
        assert(holdings(s.drop_last()).remove(k).insert(s.last().staker@, s.last()@) =~= holdings(
            s.drop_last(),
        ).insert(s.last().staker@, s.last()@).remove(k));
    }
}

/// Appending a position under a fresh staker extends the holdings at exactly
/// that key.
proof fn lemma_holdings_push(s: Seq<StakeInfo>, x: StakeInfo)
    requires
        unique_stakers(s),
        forall|i: int| 0 <= i < s.len() ==> (#[trigger] s[i]).staker@ != x.staker@,
    ensures
        unique_stakers(s.push(x)),
        holdings(s.push(x)) == holdings(s).insert(x.staker@, x@),
        staked_sum(s.push(x)) == staked_sum(s) + x.amount,
{
    assert(s.push(x).drop_last() =~= s);
    assert forall|a: int, b: int|
        0 <= a < b < s.push(x).len() implies (#[trigger] s.push(x)[a]).staker@ != (
    #[trigger] s.push(x)[b]).staker@ by {
        if b == s.len() {
            assert(s.push(x)[a] == s[a]);
        }
    }
}

/// Every staked amount is non-negative, so the sum is too.
proof fn lemma_sum_nonneg(s: Seq<StakeInfo>)
    ensures
        staked_sum(s) >= 0,
    decreases s.len(),
{
    if s.len() > 0 {
        lemma_sum_nonneg(s.drop_last());
    }
}

/// Removing the position at `i` takes exactly its amount out of the sum.
proof fn lemma_sum_remove(s: Seq<StakeInfo>, i: int)
    requires
        0 <= i < s.len(),
    ensures
        staked_sum(s.remove(i)) == staked_sum(s) - s[i].amount,
    decreases s.len(),
{
    if i == s.len() - 1 {
        assert(s.remove(i) =~= s.drop_last());
        assert(s.last() == s[i]);
    } else {
        lemma_sum_remove(s.drop_last(), i);
        assert(s.remove(i).drop_last() =~= s.drop_last().remove(i));
        assert(s.remove(i).last() == s.last());
    }
}

/// No single position holds more than the total.
proof fn lemma_element_le_sum(s: Seq<StakeInfo>, i: int)
    requires
        0 <= i < s.len(),
    ensures
        s[i].amount <= staked_sum(s),
{
    lemma_sum_remove(s, i);
    lemma_sum_nonneg(s.remove(i));
}

/// The acknowledgement a successful stake returns.
pub open spec fn staked_msg(amount: u128, staker: Seq<char>) -> Seq<char> {
    "Staked "@ + dec_str(amount as nat) + " from "@ + staker
}

/// The acknowledgement a successful unstake returns.
pub open spec fn unstaked_msg(amount: u128, staker: Seq<char>) -> Seq<char> {
    "Unstaked "@ + dec_str(amount as nat) + " from "@ + staker
}

/// The reward accrued over `dt` seconds at `rate` percent a year.
pub open spec fn accrued_reward(amount: u128, rate: u128, dt: u64) -> int {
    (amount * rate * dt) as int / (86400int * 365 * 100)
}

/// The seconds staked: elapsed time, clamped at zero for clocks that ran
/// backwards.
pub open spec fn elapsed(since: u64, now: u64) -> u64 {
    if now >= since {
        (now - since) as u64
    } else {
        0u64
    }
}

/// The staking ledger: positions with unique stakers, their running total,
/// and the reward rate fixed at construction.
pub struct StakingContract {
    pub stakes: Vec<StakeInfo>,
    pub total_staked: u128,
    pub reward_rate: u128,
}

impl StakingContract {
    /// Well-formedness: stakers are unique and the running total is exactly
    /// the sum of the staked amounts.
    pub open spec fn wf(self) -> bool {
        &&& unique_stakers(self.stakes@)
        &&& self.total_staked as int == staked_sum(self.stakes@)
    }

    /// The holdings this ledger denotes.
    pub open spec fn holdings_map(self) -> Map<Seq<char>, StakeView> {
        holdings(self.stakes@)
    }

    /// An empty ledger at the default reward rate.
    pub fn new() -> (c: StakingContract)
        ensures
            c.wf(),
            c.holdings_map() == Map::<Seq<char>, StakeView>::empty(),
            c.total_staked == 0,
            c.reward_rate == 100,
    {
        StakingContract { stakes: Vec::new(), total_staked: 0, reward_rate: 100 }
    }

    /// The index of the position under `staker`, if any.
    fn find_index(&self, staker: &str) -> (r: Option<usize>)
        ensures
            match r {
                Some(i) => i < self.stakes@.len() && self.stakes@[i as int].staker@ == staker@,
                None => forall|j: int|
                    0 <= j < self.stakes@.len() ==> (#[trigger] self.stakes@[j]).staker@ != staker@,
            },
    {
        let n = self.stakes.len();
        let mut i: usize = 0;
        while i < n
            invariant
                n == self.stakes@.len(),
                i <= n,
                forall|j: int| 0 <= j < i ==> (#[trigger] self.stakes@[j]).staker@ != staker@,
            decreases n - i,
        {
            if str_eq(self.stakes[i].staker.as_str(), staker) {
                return Some(i);
            }
            i = i + 1;
        }
        None
    }

    /// Stakes `amount` for `staker`: adds to an existing position or opens a
    /// fresh one with no reward, and grows the total. A zero amount is
    /// rejected and changes nothing.
    pub fn stake(&mut self, staker: String, amount: u128, timestamp: u64) -> (result: Result<
        String,
        String,
    >)
        requires
            old(self).wf(),
            old(self).total_staked + amount <= u128::MAX,
        ensures
            final(self).wf(),
            final(self).reward_rate == old(self).reward_rate,
            amount == 0 ==> *final(self) == *old(self) && (result matches Err(e) && e@
                == "Amount must be greater than 0"@),
            amount > 0 ==> {
                &&& final(self).total_staked == old(self).total_staked + amount
                &&& (result matches Ok(s) && s@ == staked_msg(amount, staker@))
                &&& final(self).holdings_map() == (if old(self).holdings_map().contains_key(
                    staker@,
                ) {
                    old(self).holdings_map().insert(
                        staker@,
                        StakeView {
                            amount: (old(self).holdings_map()[staker@].amount + amount) as u128,
                            ..old(self).holdings_map()[staker@]
                        },
                    )
                } else {
                    old(self).holdings_map().insert(
                        staker@,
                        StakeView { staker: staker@, amount, timestamp, reward: 0 },
                    )
                })
            },
    {
        if amount == 0 {
            return Err("Amount must be greater than 0".to_owned());
        }
        match self.find_index(staker.as_str()) {
            Some(i) => {
                proof {
                    lemma_holdings_at(self.stakes@, i as int);
                    lemma_holdings_remove(self.stakes@, i as int);
                    lemma_sum_remove(self.stakes@, i as int);
                    lemma_element_le_sum(self.stakes@, i as int);
                }
                let ghost orig = self.stakes@;
                let mut position = self.stakes.remove(i);
                position.amount = position.amount + amount;
                proof {
                    lemma_holdings_push(orig.remove(i as int), position);
                    assert(holdings(orig).remove(orig[i as int].staker@).insert(
                        staker@,
                        position@,
                    ) =~= holdings(orig).insert(staker@, position@));
                }
                self.stakes.push(position);
            },
            None => {
                let position = StakeInfo { staker: staker.clone(), amount, timestamp, reward: 0 };
                proof {
                    lemma_holdings_absent(self.stakes@, staker@);
                    lemma_holdings_push(self.stakes@, position);
                }
                self.stakes.push(position);
            },
        }
        self.total_staked = self.total_staked + amount;
        let mut s = "Staked ".to_owned();
        let rendered = u128_to_string(amount);
        s.append(rendered.as_str());
        s.append(" from ");
        s.append(staker.as_str());
        Ok(s)
    }

    /// Takes `amount` back out of `staker`'s position, closing it when it
    /// reaches zero. An unknown staker or an amount beyond the position is
    /// rejected and changes nothing.
    pub fn unstake(&mut self, staker: String, amount: u128) -> (result: Result<String, String>)
        requires
            old(self).wf(),
        ensures
            final(self).wf(),
            final(self).reward_rate == old(self).reward_rate,
            !old(self).holdings_map().contains_key(staker@) ==> *final(self) == *old(self) && (
            result matches Err(e) && e@ == "Stake not found"@),
            old(self).holdings_map().contains_key(staker@) && old(
                self,
            ).holdings_map()[staker@].amount < amount ==> *final(self) == *old(self) && (
            result matches Err(e) && e@ == "Insufficient staked amount"@),
            old(self).holdings_map().contains_key(staker@) && old(
                self,
            ).holdings_map()[staker@].amount >= amount ==> {
                &&& final(self).total_staked == old(self).total_staked - amount
                &&& (result matches Ok(s) && s@ == unstaked_msg(amount, staker@))
                &&& final(self).holdings_map() == (if old(self).holdings_map()[staker@].amount
                    == amount {
                    old(self).holdings_map().remove(staker@)
                } else {
                    old(self).holdings_map().insert(
                        staker@,
                        StakeView {
                            amount: (old(self).holdings_map()[staker@].amount - amount) as u128,
                            ..old(self).holdings_map()[staker@]
                        },
                    )
                })
            },
    {
        let i = match self.find_index(staker.as_str()) {
            Some(i) => i,
            None => {
                proof {
                    lemma_holdings_absent(self.stakes@, staker@);
                }
                return Err("Stake not found".to_owned());
            },
        };
        proof {
            lemma_holdings_at(self.stakes@, i as int);
        }
        if self.stakes[i].amount < amount {
            return Err("Insufficient staked amount".to_owned());
        }
        proof {
            lemma_holdings_remove(self.stakes@, i as int);
            lemma_sum_remove(self.stakes@, i as int);
            lemma_element_le_sum(self.stakes@, i as int);
            lemma_sum_nonneg(self.stakes@.remove(i as int));
        }
        let ghost orig = self.stakes@;
        let mut position = self.stakes.remove(i);
        position.amount = position.amount - amount;
        if position.amount > 0 {
            proof {
                lemma_holdings_push(orig.remove(i as int), position);
                assert(holdings(orig).remove(orig[i as int].staker@).insert(staker@, position@)
                    =~= holdings(orig).insert(staker@, position@));
            }
            self.stakes.push(position);
        }
        self.total_staked = self.total_staked - amount;
        let mut s = "Unstaked ".to_owned();
        let rendered = u128_to_string(amount);
        s.append(rendered.as_str());
        s.append(" from ");
        s.append(staker.as_str());
        Ok(s)
    }

    /// The rewards `staker` could claim at `current_time`: what is already
    /// accrued plus the annual rate applied to the time staked; zero for an
    /// unknown staker.
    pub fn calculate_rewards(&self, staker: &str, current_time: u64) -> (reward: u128)
        requires
            self.wf(),
            self.holdings_map().contains_key(staker@) ==> {
                let p = self.holdings_map()[staker@];
                &&& p.amount * self.reward_rate <= u128::MAX
                &&& p.amount * self.reward_rate * elapsed(p.timestamp, current_time) <= u128::MAX
                &&& p.reward + accrued_reward(
                    p.amount,
                    self.reward_rate,
                    elapsed(p.timestamp, current_time),
                ) <= u128::MAX
            },
        ensures
            reward as int == if self.holdings_map().contains_key(staker@) {
                let p = self.holdings_map()[staker@];
                p.reward + accrued_reward(
                    p.amount,
                    self.reward_rate,
                    elapsed(p.timestamp, current_time),
                )
            } else {
                0int
            },
    {
        match self.find_index(staker) {
            Some(i) => {
                proof {
                    lemma_holdings_at(self.stakes@, i as int);
                }
                let position = &self.stakes[i];
                let time_staked: u64 = if current_time >= position.timestamp {
                    current_time - position.timestamp
                } else {
                    0
                };
                let reward = (position.amount * self.reward_rate * (time_staked as u128)) / (86400
                    * 365 * 100);
                position.reward + reward
            },
            None => {
                proof {
                    lemma_holdings_absent(self.stakes@, staker@);
                }
                0
            },
        }
    }

    /// Pays out `staker`'s rewards: the claim resets the accrued reward to
    /// zero and restarts the clock at `current_time`, leaving the staked
    /// amount alone.
    pub fn claim_rewards(&mut self, staker: String, current_time: u64) -> (result: Result<
        u128,
        String,
    >)
        requires
            old(self).wf(),
            old(self).holdings_map().contains_key(staker@) ==> {
                let p = old(self).holdings_map()[staker@];
                &&& p.amount * old(self).reward_rate <= u128::MAX
                &&& p.amount * old(self).reward_rate * elapsed(p.timestamp, current_time)
                    <= u128::MAX
                &&& p.reward + accrued_reward(
                    p.amount,
                    old(self).reward_rate,
                    elapsed(p.timestamp, current_time),
                ) <= u128::MAX
            },
        ensures
            final(self).wf(),
            final(self).reward_rate == old(self).reward_rate,
            final(self).total_staked == old(self).total_staked,
            !old(self).holdings_map().contains_key(staker@) ==> *final(self) == *old(self) && (
            result matches Err(e) && e@ == "Stake not found"@),
            old(self).holdings_map().contains_key(staker@) ==> {
                let p = old(self).holdings_map()[staker@];
                &&& result matches Ok(r) && r as int == p.reward + accrued_reward(
                    p.amount,
                    old(self).reward_rate,
                    elapsed(p.timestamp, current_time),
                )
                &&& final(self).holdings_map() == old(self).holdings_map().insert(
                    staker@,
                    StakeView {
                        staker: p.staker,
                        amount: p.amount,
                        timestamp: current_time,
                        reward: 0,
                    },
                )
            },
    {
        let i = match self.find_index(staker.as_str()) {
            Some(i) => i,
            None => {
                proof {
                    lemma_holdings_absent(self.stakes@, staker@);
                }
                return Err("Stake not found".to_owned());
            },
        };
        proof {
            lemma_holdings_at(self.stakes@, i as int);
        }
        let rewards = self.calculate_rewards(staker.as_str(), current_time);
        proof {
            lemma_holdings_remove(self.stakes@, i as int);
            lemma_sum_remove(self.stakes@, i as int);
        }
        let ghost orig = self.stakes@;
        let mut position = self.stakes.remove(i);
        position.reward = 0;
        position.timestamp = current_time;
        proof {
            lemma_holdings_push(orig.remove(i as int), position);
            assert(holdings(orig).remove(orig[i as int].staker@).insert(staker@, position@)
                =~= holdings(orig).insert(staker@, position@));
        }
        self.stakes.push(position);
        Ok(rewards)
    }

    /// The position under `staker`, if any.
    pub fn get_stake<'a>(&'a self, staker: &str) -> (r: Option<&'a StakeInfo>)
        requires
            self.wf(),
        ensures
            match r {
                Some(p) => self.holdings_map().contains_key(staker@) && p@
                    == self.holdings_map()[staker@],
                None => !self.holdings_map().contains_key(staker@),
            },
    {
        match self.find_index(staker) {
            Some(i) => {
                proof {
                    lemma_holdings_at(self.stakes@, i as int);
                }
                Some(&self.stakes[i])
            },
            None => {
                proof {
                    lemma_holdings_absent(self.stakes@, staker@);
                }
                None
            },
        }
    }

    /// The running total of staked amounts.
    pub fn get_total_staked(&self) -> (total: u128)
        ensures
            total == self.total_staked,
    {
        self.total_staked
    }
}

impl Default for StakingContract {
    /// The same empty ledger `new` makes.
    fn default() -> (c: StakingContract)
        ensures
            c.wf(),
            c.holdings_map() == Map::<Seq<char>, StakeView>::empty(),
            c.total_staked == 0,
            c.reward_rate == 100,
    {
        StakingContract::new()
    }
}

} // verus!
