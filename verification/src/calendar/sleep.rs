//! When sleeping players end the day.

use vstd::prelude::*;

verus! {

/// How many sleeping players it takes to skip the rest of the day.
///
/// Waiting for everyone suits a small group of friends; on large servers a
/// share of the players online is enough, or one player could keep everyone
/// up all night.
#[derive(Clone, Copy, Debug, PartialEq, Eq, Structural)]
pub enum SleepRule {
    /// Every player online must be asleep.
    Everyone,
    /// At least this percentage of the players online, rounded up and never
    /// fewer than one.
    Share { percent: u8 },
}

/// `percent` capped at a hundred.
pub open spec fn capped_percent(percent: u8) -> nat {
    if percent <= 100 { percent as nat } else { 100 }
}

/// Whether counting the players that `rule` needs out of `online` stays
/// within 32 bits: the share's product of players and percentage must.
pub open spec fn countable(rule: SleepRule, online: u32) -> bool {
    match rule {
        SleepRule::Everyone => true,
        SleepRule::Share { percent } => online * capped_percent(percent) <= u32::MAX,
    }
}

/// Players that must be asleep, out of `online`, to end the day.
pub open spec fn required_sleepers(rule: SleepRule, online: nat) -> nat {
    match rule {
        SleepRule::Everyone => online,
        SleepRule::Share { percent } => {
            let share = (online * capped_percent(percent) + 99) / 100;
            let at_least_one = if share >= 1 { share } else { 1 };
            if at_least_one <= online { at_least_one } else { online }
        },
    }
}

impl SleepRule {
    /// Players that must be asleep, out of `online`, to end the day.
    pub fn required(self, online: u32) -> (needed: u32)
        requires
            countable(self, online),
        ensures
            needed == required_sleepers(self, online as nat),
    {
        match self {
            SleepRule::Everyone => online,
            SleepRule::Share { percent } => {
                let capped: u32 = if percent <= 100 { percent as u32 } else { 100 };
                let product: u32 = online * capped;
                let share: u32 = product / 100 + if product % 100 != 0 { 1 } else { 0 };
                assert(share == (product + 99) / 100);
                let at_least_one: u32 = if share >= 1 { share } else { 1 };
                if at_least_one <= online { at_least_one } else { online }
            },
        }
    }

    /// Whether `asleep` sleeping players out of `online` end the day. An
    /// empty world never ends its day early.
    pub fn ends_day(self, asleep: u32, online: u32) -> (ends: bool)
        requires
            countable(self, online),
        ensures
            ends == (online > 0 && asleep >= required_sleepers(self, online as nat)),
    {
        online > 0 && asleep >= self.required(online)
    }
}

/// However the rule is set, the day ends once every player online sleeps,
/// never while nobody does, and never in an empty world; more sleepers never
/// undo it.
pub proof fn sleep_rules_are_sensible(rule: SleepRule, online: nat, asleep: nat, more: nat)
    requires
        asleep <= more,
    ensures
        required_sleepers(rule, online) <= online,
        online > 0 ==> required_sleepers(rule, online) >= 1,
        online > 0 && asleep >= required_sleepers(rule, online) ==> more >= required_sleepers(
            rule,
            online,
        ),
{
}

/// Waiting for everyone needs every player online. A share rule needs the
/// fewest players, at least one and at most all of them, whose number is
/// no smaller than the share of those online: the share is rounded up,
/// never down, with a percentage above a hundred counting as a hundred.
pub proof fn shares_round_up(percent: u8, online: nat)
    ensures
        required_sleepers(SleepRule::Everyone, online) == online,
        online > 0 ==> {
            let p: nat = if percent <= 100 { percent as nat } else { 100 };
            let r = required_sleepers(SleepRule::Share { percent }, online);
            &&& 1 <= r <= online
            &&& r * 100 >= online * p
            &&& forall|k: nat| 1 <= k < r ==> #[trigger] (k * 100) < online * p
        },
{
    let rule = SleepRule::Share { percent };
    {
        if online > 0 {
            let p: nat = if percent <= 100 { percent as nat } else { 100 };
            let x = online * p;
            let share = (x + 99) / 100;
            assert(x <= online * 100) by (nonlinear_arith)
                requires
                    x == online * p,
                    p <= 100,
            ;
            assert(share * 100 >= x && share <= online && (share == 0 || (share - 1) * 100 < x)) by (nonlinear_arith)
                requires
                    share == (x + 99) / 100,
                    x <= online * 100,
            ;
            let r = required_sleepers(rule, online);
            assert(r == if share >= 1 { share } else { 1 });
            assert(r * 100 >= x) by (nonlinear_arith)
                requires
                    r >= share,
                    share * 100 >= x,
            ;
            assert forall|k: nat| 1 <= k < r implies #[trigger] (k * 100) < x by {
                assert(share >= 1);
                assert(k * 100 <= (share - 1) * 100) by (nonlinear_arith)
                    requires
                        k <= share - 1,
                ;
            }
        }
    }
}

/// A larger share never needs fewer sleepers, and a share of a hundred
/// percent or more needs everyone, as waiting for everyone does.
pub proof fn larger_shares_need_more_sleepers(low: u8, high: u8, online: nat)
    requires
        low <= high,
    ensures
        required_sleepers(SleepRule::Share { percent: low }, online) <= required_sleepers(
            SleepRule::Share { percent: high },
            online,
        ),
        high >= 100 ==> required_sleepers(SleepRule::Share { percent: high }, online)
            == required_sleepers(SleepRule::Everyone, online),
{
    let lo = capped_percent(low);
    let hi = capped_percent(high);
    assert(online * lo <= online * hi) by (nonlinear_arith)
        requires
            lo <= hi,
    ;
    assert((online * lo + 99) / 100 <= (online * hi + 99) / 100) by (nonlinear_arith)
        requires
            online * lo <= online * hi,
    ;
    if high >= 100 {
        assert((online * 100 + 99) / 100 == online) by (nonlinear_arith);
    }
}

} // verus!
