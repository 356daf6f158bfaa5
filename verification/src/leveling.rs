//! Experience gain and level-ups, and the Dark Essence reward at the end of
//! a dungeon.

use vstd::prelude::*;
use crate::meta::{MetaProgression, MetaView};

verus! {

/// Leveling state of the player character.
pub struct Player {
    pub level: u32,
    /// Experience gathered toward the next level.
    pub experience: u64,
    /// Experience needed to reach the next level.
    pub xp_to_next: u64,
}

/// Statistics of the current run; the real-valued ones are carried as
/// single-precision bit patterns.
pub struct RunProgression {
    pub kills: u32,
    pub damage_dealt_bits: u32,
    pub damage_taken_bits: u32,
    pub gold_collected: u64,
    pub xp_earned: u64,
    pub run_time_bits: u32,
}

impl Default for RunProgression {
    fn default() -> (r: RunProgression)
        ensures
            r.kills == 0 && r.damage_dealt_bits == 0 && r.damage_taken_bits == 0
                && r.gold_collected == 0 && r.xp_earned == 0 && r.run_time_bits == 0,
    {
        RunProgression {
            kills: 0,
            damage_dealt_bits: 0,
            damage_taken_bits: 0,
            gold_collected: 0,
            xp_earned: 0,
            run_time_bits: 0,
        }
    }
}

/// A level reached, with the experience the level after it needs.
#[derive(Clone, Copy, Debug, PartialEq, Eq, Structural)]
pub struct LevelUp {
    pub new_level: u32,
    pub xp_to_next: u64,
}

/// Sum of the first `k` thresholds of `ts`.
pub open spec fn sum_first(ts: Seq<u64>, k: int) -> int
    decreases k,
{
    if k <= 0 {
        0
    } else {
        sum_first(ts, k - 1) + ts[k - 1]
    }
}

/// The thresholds met one after another: the one in force before the gain,
/// then the one of each level reached.
pub open spec fn thresholds(first: u64, ups: Seq<LevelUp>) -> Seq<u64> {
    seq![first] + ups.map_values(|u: LevelUp| u.xp_to_next)
}

/// Gaining experience from `start_level` with `total` experience in hand and
/// `first` needed for the next level produced exactly the level-ups `ups`
/// and left `rest` experience: each threshold in turn was met and paid, and
/// the last one is not met by what is left.
pub open spec fn leveling_run(
    start_level: u32,
    total: int,
    first: u64,
    ups: Seq<LevelUp>,
    rest: int,
) -> bool {
    let ts = thresholds(first, ups);
    &&& forall|j: int|
        0 <= j < ups.len() ==> #[trigger] ups[j].new_level == start_level + j + 1
    &&& forall|j: int| 0 <= j < ups.len() ==> total - sum_first(ts, j) >= #[trigger] ts[j]
    &&& rest == total - sum_first(ts, ups.len() as int)
    &&& rest < ts[ups.len() as int]
}

/// What a caller's experience curve must satisfy: every level needs at least
/// one point, and from level 170 on the requirement is the largest `u64`
/// (the game's curve, 100 * 1.3^level converted to `u64`, saturates from
/// there on, so no player climbs much past level 170).
pub open spec fn xp_curve_ok<F: Fn(u32) -> u64>(xp_for_level: F) -> bool {
    &&& forall|l: u32| xp_for_level.requires((l,))
    &&& forall|l: u32, r: u64|
        #[trigger] xp_for_level.ensures((l,), r) ==> r >= 1 && (l >= 170 ==> r == u64::MAX)
}

/// Adds `amount` experience to the player and to the run's total, then
/// levels up as long as the experience in hand meets the requirement,
/// asking `xp_for_level` for the requirement of each new level. Returns the
/// level-ups in order.
#[verifier::rlimit(40)]
pub fn gain_xp<F: Fn(u32) -> u64>(
    player: &mut Player,
    progression: &mut RunProgression,
    amount: u64,
    xp_for_level: F,
) -> (ups: Vec<LevelUp>)
    requires
        xp_curve_ok(xp_for_level),
        old(player).experience + amount <= u64::MAX,
        old(progression).xp_earned + amount <= u64::MAX,
        old(player).level <= u32::MAX - 2,
    ensures
        leveling_run(
            old(player).level,
            old(player).experience + amount,
            old(player).xp_to_next,
            ups@,
            final(player).experience as int,
        ),
        forall|j: int|
            0 <= j < ups@.len() ==> #[trigger] xp_for_level.ensures(
                (ups@[j].new_level,),
                ups@[j].xp_to_next,
            ),
        final(player).level == old(player).level + ups@.len(),
        final(player).xp_to_next == thresholds(old(player).xp_to_next, ups@).last(),
        final(player).level <= (if old(player).level + 1 >= 170 {
            old(player).level + 1
        } else {
            170
        }) + 1,
        final(progression).xp_earned == old(progression).xp_earned + amount,
        final(progression).kills == old(progression).kills,
        final(progression).damage_dealt_bits == old(progression).damage_dealt_bits,
        final(progression).damage_taken_bits == old(progression).damage_taken_bits,
        final(progression).gold_collected == old(progression).gold_collected,
        final(progression).run_time_bits == old(progression).run_time_bits,
{
    player.experience = player.experience + amount;
    progression.xp_earned = progression.xp_earned + amount;
    let ghost start = old(player).level;
    let ghost total = player.experience as int;
    let ghost first = player.xp_to_next;
    let ghost cap: int = if start + 1 >= 170 { start + 1 } else { 170 };
    let mut ups: Vec<LevelUp> = Vec::new();
    while player.experience >= player.xp_to_next
        invariant
            xp_curve_ok(xp_for_level),
            player.level == start + ups@.len(),
            player.xp_to_next == thresholds(first, ups@).last(),
            player.experience == total - sum_first(thresholds(first, ups@), ups@.len() as int),
            forall|j: int|
                0 <= j < ups@.len() ==> #[trigger] ups@[j].new_level == start + j + 1,
            forall|j: int|
                0 <= j < ups@.len() ==> total - sum_first(thresholds(first, ups@), j)
                    >= #[trigger] thresholds(first, ups@)[j],
            forall|j: int|
                0 <= j < ups@.len() ==> #[trigger] xp_for_level.ensures(
                    (ups@[j].new_level,),
                    ups@[j].xp_to_next,
                ),
            start <= u32::MAX - 2,
            cap == if start + 1 >= 170 { start + 1 } else { 170 },
            player.level <= cap + 1,
            player.level == cap + 1 ==> player.experience == 0 && player.xp_to_next
                == u64::MAX,
            ups@.len() > 0 && player.level >= 170 ==> player.xp_to_next == u64::MAX,
        decreases 2 * player.experience + (if player.xp_to_next == 0 { 1int } else { 0 }),
    {
        let ghost before = ups@;
        let need = player.xp_to_next;
        player.experience = player.experience - need;
        player.level = player.level + 1;
        let next = xp_for_level(player.level);
        player.xp_to_next = next;
        ups.push(LevelUp { new_level: player.level, xp_to_next: next });
        proof {
            let ts0 = thresholds(first, before);
            let ts1 = thresholds(first, ups@);
            assert(ts1 =~= ts0.push(next));
            assert forall|j: int| 0 <= j <= before.len() implies sum_first(ts1, j) == sum_first(
                ts0,
                j,
            ) by {
                lemma_sum_first_prefix(ts0, ts1, j);
            }
            assert(sum_first(ts1, ups@.len() as int) == sum_first(ts1, before.len() as int)
                + ts1[before.len() as int]);
        }
    }
    ups
}

/// Sums over a common prefix agree.
proof fn lemma_sum_first_prefix(a: Seq<u64>, b: Seq<u64>, k: int)
    requires
        0 <= k <= a.len(),
        k <= b.len(),
        forall|i: int| 0 <= i < k ==> a[i] == b[i],
    ensures
        sum_first(a, k) == sum_first(b, k),
    decreases k,
{
    if k > 0 {
        lemma_sum_first_prefix(a, b, k - 1);
    }
}


/// Sums over `s` split at `n`: the first `n + j` entries add up to the first
/// `n` plus the first `j` of `t`, where `t` continues `s` from `n`.
proof fn lemma_sum_first_split(s: Seq<u64>, t: Seq<u64>, n: int, j: int)
    requires
        0 <= n,
        0 <= j,
        n + j <= s.len(),
        j <= t.len(),
        forall|i: int| 0 <= i < j ==> s[n + i] == t[i],
    ensures
        sum_first(s, n + j) == sum_first(s, n) + sum_first(t, j),
    decreases j,
{
    if j > 0 {
        lemma_sum_first_split(s, t, n, j - 1);
    }
}

/// Partial sums grow with the number of entries taken.
proof fn lemma_sum_first_mono(s: Seq<u64>, j: int, k: int)
    requires
        0 <= j <= k <= s.len(),
    ensures
        0 <= sum_first(s, j) <= sum_first(s, k),
    decreases k,
{
    if k > j {
        lemma_sum_first_mono(s, j, k - 1);
    } else if j > 0 {
        lemma_sum_first_mono(s, 0, j - 1);
    }
}

/// Two leveling runs, the second starting where the first stopped with
/// `more` experience added, make one run over the sum.
proof fn lemma_leveling_run_concat(
    start_level: u32,
    total: int,
    first: u64,
    ups1: Seq<LevelUp>,
    rest1: int,
    more: int,
    ups2: Seq<LevelUp>,
    rest2: int,
)
    requires
        more >= 0,
        leveling_run(start_level, total, first, ups1, rest1),
        leveling_run(
            (start_level + ups1.len()) as u32,
            rest1 + more,
            thresholds(first, ups1).last(),
            ups2,
            rest2,
        ),
        start_level + ups1.len() <= u32::MAX,
    ensures
        leveling_run(start_level, total + more, first, ups1 + ups2, rest2),
        thresholds(first, ups1 + ups2).last() == thresholds(
            thresholds(first, ups1).last(),
            ups2,
        ).last(),
{
    let ts1 = thresholds(first, ups1);
    let ts2 = thresholds(ts1.last(), ups2);
    let ups = ups1 + ups2;
    let ts = thresholds(first, ups);
    let n = ups1.len() as int;
    assert(ts.len() == n + ups2.len() + 1);
    assert forall|i: int| 0 <= i <= n implies ts[i] == ts1[i] by {}
    assert forall|i: int| 0 <= i <= ups2.len() implies ts[n + i] == ts2[i] by {}
    assert forall|j: int| 0 <= j <= n implies sum_first(ts, j) == sum_first(ts1, j) by {
        lemma_sum_first_prefix(ts1, ts, j);
    }
    assert forall|j: int| 0 <= j <= ups2.len() implies sum_first(ts, n + j) == sum_first(ts, n)
        + sum_first(ts2, j) by {
        lemma_sum_first_split(ts, ts2, n, j);
    }
    assert forall|j: int| 0 <= j < ups.len() implies #[trigger] ups[j].new_level == start_level
        + j + 1 by {
        if j >= n {
            assert(ups[j] == ups2[j - n]);
        }
    }
    assert forall|j: int| 0 <= j < ups.len() implies total + more - sum_first(ts, j)
        >= #[trigger] ts[j] by {
        if j >= n {
            assert(ts[n + (j - n)] == ts2[j - n]);
            assert(sum_first(ts, n + (j - n)) == sum_first(ts, n) + sum_first(ts2, j - n));
        }
    }
    assert(sum_first(ts, n + ups2.len()) == sum_first(ts, n) + sum_first(ts2, ups2.len() as int));
    assert(ts[n + ups2.len()] == ts2[ups2.len() as int]);
}

/// The experience of a list of events taken together.
pub open spec fn total_xp(amounts: Seq<u64>) -> int {
    sum_first(amounts, amounts.len() as int)
}

/// The larger of `level` and 170, the level from which the experience curve
/// stops growing; each event raises the level by at most two above it.
pub open spec fn level_floor(level: u32) -> int {
    if level >= 170 {
        level as int
    } else {
        170
    }
}

/// Adds the experience of each event in turn, leveling up after each as
/// long as the requirement is met. With at least one event this is one
/// leveling run over the experience of all of them together: the
/// level-ups come one per level gained, in order, and the experience left
/// is below what the next level needs. With none, nothing changes.
#[verifier::rlimit(40)]
pub fn handle_xp_gain<F: Fn(u32) -> u64>(
    player: &mut Player,
    progression: &mut RunProgression,
    amounts: &Vec<u64>,
    xp_for_level: F,
) -> (ups: Vec<LevelUp>)
    requires
        xp_curve_ok(xp_for_level),
        old(player).experience + total_xp(amounts@) <= u64::MAX,
        old(progression).xp_earned + total_xp(amounts@) <= u64::MAX,
        level_floor(old(player).level) + 2 * amounts.len() <= u32::MAX - 2,
    ensures
        amounts.len() > 0 ==> leveling_run(
            old(player).level,
            old(player).experience + total_xp(amounts@),
            old(player).xp_to_next,
            ups@,
            final(player).experience as int,
        ),
        amounts.len() > 0 ==> final(player).experience < final(player).xp_to_next,
        amounts.len() == 0 ==> ups@.len() == 0 && final(player).experience == old(
            player,
        ).experience,
        forall|j: int|
            0 <= j < ups@.len() ==> #[trigger] ups@[j].new_level == old(player).level + j + 1,
        forall|j: int|
            0 <= j < ups@.len() ==> #[trigger] xp_for_level.ensures(
                (ups@[j].new_level,),
                ups@[j].xp_to_next,
            ),
        final(player).level == old(player).level + ups@.len(),
        final(player).xp_to_next == thresholds(old(player).xp_to_next, ups@).last(),
        final(progression).xp_earned == old(progression).xp_earned + total_xp(amounts@),
        final(progression).kills == old(progression).kills,
        final(progression).damage_dealt_bits == old(progression).damage_dealt_bits,
        final(progression).damage_taken_bits == old(progression).damage_taken_bits,
        final(progression).gold_collected == old(progression).gold_collected,
        final(progression).run_time_bits == old(progression).run_time_bits,
{
    let ghost p0 = *player;
    let ghost g0 = *progression;
    let ghost s = amounts@;
    let mut ups: Vec<LevelUp> = Vec::new();
    let mut i: usize = 0;
    proof {
        lemma_sum_first_mono(s, 0, s.len() as int);
    }
    while i < amounts.len()
        invariant
            xp_curve_ok(xp_for_level),
            s == amounts@,
            0 <= i <= amounts.len(),
            p0.experience + total_xp(s) <= u64::MAX,
            g0.xp_earned + total_xp(s) <= u64::MAX,
            level_floor(p0.level) + 2 * s.len() <= u32::MAX - 2,
            i == 0 ==> ups@.len() == 0 && player.experience == p0.experience,
            i > 0 ==> leveling_run(
                p0.level,
                p0.experience + sum_first(s, i as int),
                p0.xp_to_next,
                ups@,
                player.experience as int,
            ),
            player.experience <= p0.experience + sum_first(s, i as int),
            forall|j: int|
                0 <= j < ups@.len() ==> #[trigger] xp_for_level.ensures(
                    (ups@[j].new_level,),
                    ups@[j].xp_to_next,
                ),
            player.level == p0.level + ups@.len(),
            player.level <= level_floor(p0.level) + 2 * i,
            player.xp_to_next == thresholds(p0.xp_to_next, ups@).last(),
            progression.xp_earned == g0.xp_earned + sum_first(s, i as int),
            progression.kills == g0.kills,
            progression.damage_dealt_bits == g0.damage_dealt_bits,
            progression.damage_taken_bits == g0.damage_taken_bits,
            progression.gold_collected == g0.gold_collected,
            progression.run_time_bits == g0.run_time_bits,
        decreases amounts.len() - i,
    {
        let amount = amounts[i];
        proof {
            lemma_sum_first_mono(s, i + 1, s.len() as int);
        }
        let ghost before = ups@;
        let ghost exp_before = player.experience;
        let mut more = gain_xp(player, progression, amount, &xp_for_level);
        proof {
            let ts2 = thresholds(thresholds(p0.xp_to_next, before).last(), more@);
            lemma_sum_first_mono(ts2, 0, more@.len() as int);
            if i > 0 {
                lemma_leveling_run_concat(
                    p0.level,
                    p0.experience + sum_first(s, i as int),
                    p0.xp_to_next,
                    before,
                    exp_before as int,
                    amount as int,
                    more@,
                    player.experience as int,
                );
            } else {
                assert(before + more@ =~= more@);
            }
        }
        let ghost gained = more@;
        ups.append(&mut more);
        proof {
            assert(ups@ =~= before + gained);
            assert forall|j: int| 0 <= j < ups@.len() implies #[trigger] xp_for_level.ensures(
                (ups@[j].new_level,),
                ups@[j].xp_to_next,
            ) by {
                if j >= before.len() {
                    assert(ups@[j] == gained[j - before.len()]);
                }
            }
        }
        i = i + 1;
    }
    proof {
        if s.len() > 0 {
            assert(sum_first(s, i as int) == total_xp(s));
        }
    }
    ups
}

/// Dark Essence earned at the end of a dungeon: 10 for clearing it, plus 5
/// per wave reached.
pub open spec fn dungeon_essence_reward(cleared: bool, wave_reached: u32) -> int {
    (if cleared { 10int } else { 0int }) + wave_reached * 5
}

/// Records the end of a dungeon run: awards its Dark Essence, counts the run
/// (and the clear), raises the best wave reached, and starts a fresh run
/// record. Returns the Dark Essence awarded.
pub fn grant_dark_essence_on_dungeon_end(
    meta: &mut MetaProgression,
    progression: &mut RunProgression,
    cleared: bool,
    wave_reached: u32,
) -> (total: u64)
    requires
        dungeon_essence_reward(cleared, wave_reached) <= u32::MAX,
        old(meta).total_runs < u32::MAX,
        cleared ==> old(meta).completed_runs < u32::MAX,
    ensures
        total == dungeon_essence_reward(cleared, wave_reached),
        final(meta)@ == (MetaView {
            dark_essence: if old(meta).dark_essence + total > u64::MAX {
                u64::MAX
            } else {
                (old(meta).dark_essence + total) as u64
            },
            total_runs: (old(meta).total_runs + 1) as u32,
            completed_runs: if cleared {
                (old(meta).completed_runs + 1) as u32
            } else {
                old(meta).completed_runs
            },
            highest_wave: if wave_reached > old(meta).highest_wave {
                wave_reached
            } else {
                old(meta).highest_wave
            },
            ..old(meta)@
        }),
        final(progression).kills == 0 && final(progression).damage_dealt_bits == 0
            && final(progression).damage_taken_bits == 0 && final(progression).gold_collected == 0
            && final(progression).xp_earned == 0 && final(progression).run_time_bits == 0,
{
    let tier_reward: u32 = if cleared { 1 } else { 0 } * 10;
    let depth_reward: u32 = wave_reached * 5;
    let total: u64 = (tier_reward + depth_reward) as u64;
    meta.add_dark_essence(total);
    meta.total_runs = meta.total_runs + 1;
    if cleared {
        meta.completed_runs = meta.completed_runs + 1;
    }
    if wave_reached > meta.highest_wave {
        meta.highest_wave = wave_reached;
    }
    *progression = RunProgression::default();
    total
}

} // verus!
