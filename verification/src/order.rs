//! The order in which discovered endpoints are tried: tiers by ascending
//! priority, and within a tier a weighted draw without replacement.

use crate::random::RandomSource;
use crate::record::Record;
use vstd::prelude::*;

verus! {

/// The lowest priority value among the first `n` records of `s`, or the
/// largest value there is where `n` is zero.
pub open spec fn lowest_priority_in(s: Seq<Record>, n: int) -> u16
    decreases n,
{
    if n <= 0 {
        0xffff
    } else {
        let before = lowest_priority_in(s, n - 1);
        if s[n - 1].priority < before {
            s[n - 1].priority
        } else {
            before
        }
    }
}

/// The priority of the tier that is served next: the lowest one in `s`.
pub open spec fn lowest_priority(s: Seq<Record>) -> u16 {
    lowest_priority_in(s, s.len() as int)
}

/// How many of the equally likely outcomes of a draw select `r`. Where the
/// whole tier has weight zero (`uniform`), every record counts once.
pub open spec fn share(r: Record, uniform: bool) -> int {
    if uniform {
        1
    } else {
        r.weight as int
    }
}

/// The shares of the records of priority `p` among the first `n` of `s`, summed.
pub open spec fn tier_share(s: Seq<Record>, p: u16, uniform: bool, n: int) -> int
    decreases n,
{
    if n <= 0 {
        0
    } else {
        tier_share(s, p, uniform, n - 1) + if s[n - 1].priority == p {
            share(s[n - 1], uniform)
        } else {
            0
        }
    }
}

/// Whether every record of the next tier of `s` has weight zero.
pub open spec fn tier_is_uniform(s: Seq<Record>) -> bool {
    tier_share(s, lowest_priority(s), false, s.len() as int) == 0
}

/// The number of outcomes that a draw for the next tier of `s` is reduced to.
pub open spec fn tier_total(s: Seq<Record>) -> int {
    tier_share(s, lowest_priority(s), tier_is_uniform(s), s.len() as int)
}

/// Whether `draw` selects the record at index `i` of `s`. The record belongs
/// to the tier of lowest priority, and the draw, reduced modulo the tier's
/// total, falls into the interval that the record's share occupies when the
/// shares of the tier are laid end to end in the order of `s`. A record of
/// share zero occupies an empty interval, so no draw selects it.
pub open spec fn is_pick(s: Seq<Record>, draw: u64, i: int) -> bool {
    let p = lowest_priority(s);
    let uniform = tier_is_uniform(s);
    let slot = draw as int % tier_total(s);
    &&& 0 <= i < s.len()
    &&& s[i].priority == p
    &&& tier_share(s, p, uniform, i) <= slot < tier_share(s, p, uniform, i + 1)
}

/// The index that `draw` selects in `s` (zero where `s` is empty).
pub open spec fn pick(s: Seq<Record>, draw: u64) -> int {
    let i = choose|i: int| is_pick(s, draw, i);
    if 0 <= i < s.len() {
        i
    } else {
        0
    }
}

/// The `k`-th draw; past the end of `draws` every draw is zero.
pub open spec fn draw_at(draws: Seq<u64>, k: int) -> u64 {
    if 0 <= k < draws.len() {
        draws[k]
    } else {
        0
    }
}

/// The order in which the records of `s` are tried when the draws are taken
/// from `draws`, starting with the `k`-th: the record that the draw selects,
/// then the order of the others under the draws that follow.
pub open spec fn weighted_order(s: Seq<Record>, draws: Seq<u64>, k: int) -> Seq<Record>
    decreases s.len(),
{
    if s.len() == 0 {
        Seq::empty()
    } else {
        let i = pick(s, draw_at(draws, k));
        seq![s[i]] + weighted_order(s.remove(i), draws, k + 1)
    }
}

/// Whether the priorities along `s` never fall.
pub open spec fn priorities_ascend(s: Seq<Record>) -> bool {
    forall|a: int, b: int| 0 <= a < b < s.len() ==> s[a].priority <= s[b].priority
}

/// Whether, within each tier of `s`, no record of weight zero stands before
/// one of the same tier with a weight above zero.
pub open spec fn zero_weights_last(s: Seq<Record>) -> bool {
    forall|a: int, b: int|
        0 <= a < b < s.len() && s[a].priority == s[b].priority && s[a].weight == 0
            ==> s[b].weight == 0
}

/// The lowest priority of a prefix bounds every priority in it from below and
/// is the priority of one of its records.
pub proof fn lemma_lowest_priority_in(s: Seq<Record>, n: int)
    requires
        0 <= n <= s.len(),
    ensures
        forall|i: int| 0 <= i < n ==> lowest_priority_in(s, n) <= #[trigger] s[i].priority,
        n > 0 ==> exists|i: int| 0 <= i < n && #[trigger] s[i].priority == lowest_priority_in(s, n),
    decreases n,
{
    if n > 0 {
        lemma_lowest_priority_in(s, n - 1);
        if n - 1 > 0 && !(s[n - 1].priority < lowest_priority_in(s, n - 1)) {
            let w = choose|i: int|
                0 <= i < n - 1 && #[trigger] s[i].priority == lowest_priority_in(s, n - 1);
            assert(s[w].priority == lowest_priority_in(s, n));
        } else {
            assert(s[n - 1].priority == lowest_priority_in(s, n));
        }
    }
}

/// The summed shares grow with the prefix, by at most 65535 for each record.
pub proof fn lemma_tier_share_grows(s: Seq<Record>, p: u16, uniform: bool, a: int, b: int)
    requires
        0 <= a <= b,
    ensures
        0 <= tier_share(s, p, uniform, a) <= tier_share(s, p, uniform, b),
        tier_share(s, p, uniform, b) <= 65535 * b,
    decreases b,
{
    if b > 0 {
        if a < b {
            lemma_tier_share_grows(s, p, uniform, a, b - 1);
        } else {
            lemma_tier_share_grows(s, p, uniform, b - 1, b - 1);
        }
    }
}

/// Where the weights of a tier sum to zero, each of its records has weight zero.
pub proof fn lemma_zero_share_means_zero_weights(s: Seq<Record>, p: u16, n: int)
    requires
        0 <= n <= s.len(),
        tier_share(s, p, false, n) == 0,
    ensures
        forall|i: int| 0 <= i < n && #[trigger] s[i].priority == p ==> s[i].weight == 0,
    decreases n,
{
    if n > 0 {
        lemma_tier_share_grows(s, p, false, n - 1, n - 1);
        lemma_zero_share_means_zero_weights(s, p, n - 1);
    }
}

/// The total of the next tier of a list that is not empty is above zero.
pub proof fn lemma_tier_total_positive(s: Seq<Record>)
    requires
        s.len() > 0,
    ensures
        tier_total(s) > 0,
{
    let p = lowest_priority(s);
    let n = s.len() as int;
    lemma_tier_share_grows(s, p, false, n, n);
    if tier_is_uniform(s) {
        lemma_lowest_priority_in(s, n);
        let w = choose|i: int| 0 <= i < n && #[trigger] s[i].priority == p;
        lemma_tier_share_grows(s, p, true, w, w);
        lemma_tier_share_grows(s, p, true, w + 1, n);
    }
}

/// Below the summed shares of a prefix, every slot belongs to one record of
/// the tier in that prefix.
proof fn lemma_slot_has_owner(s: Seq<Record>, p: u16, uniform: bool, slot: int, n: int) -> (i: int)
    requires
        0 <= n <= s.len(),
        0 <= slot < tier_share(s, p, uniform, n),
    ensures
        0 <= i < n,
        s[i].priority == p,
        tier_share(s, p, uniform, i) <= slot < tier_share(s, p, uniform, i + 1),
    decreases n,
{
    if slot < tier_share(s, p, uniform, n - 1) {
        lemma_slot_has_owner(s, p, uniform, slot, n - 1)
    } else {
        n - 1
    }
}

/// Every draw selects exactly one record of a list that is not empty.
pub proof fn lemma_pick_is_unique(s: Seq<Record>, draw: u64)
    requires
        s.len() > 0,
    ensures
        is_pick(s, draw, pick(s, draw)),
        forall|i: int| is_pick(s, draw, i) ==> i == pick(s, draw),
{
    let p = lowest_priority(s);
    let uniform = tier_is_uniform(s);
    lemma_tier_total_positive(s);
    let slot = draw as int % tier_total(s);
    let w = lemma_slot_has_owner(s, p, uniform, slot, s.len() as int);
    assert(is_pick(s, draw, w));
    assert forall|i: int, j: int| is_pick(s, draw, i) && is_pick(s, draw, j) implies i == j by {
        if i < j {
            lemma_tier_share_grows(s, p, uniform, i + 1, j);
        } else if j < i {
            lemma_tier_share_grows(s, p, uniform, j + 1, i);
        }
    }
}

/// A record of the next tier is selected by as many of the equally likely
/// outcomes of a draw as its share counts: by those from the summed shares
/// of the tier's records before it up to, not including, that sum plus its
/// own share. So within a tier the picks fall in proportion to the weights.
pub proof fn lemma_pick_is_proportional(s: Seq<Record>, draw: u64, i: int)
    requires
        0 <= i < s.len(),
        s[i].priority == lowest_priority(s),
    ensures
        ({
            let before = tier_share(s, lowest_priority(s), tier_is_uniform(s), i);
            let width = share(s[i], tier_is_uniform(s));
            &&& 0 <= before
            &&& before + width <= tier_total(s)
            &&& is_pick(s, draw, i) <==> before <= draw as int % tier_total(s) < before + width
        }),
{
    lemma_tier_share_grows(s, lowest_priority(s), tier_is_uniform(s), i, i);
    lemma_tier_share_grows(s, lowest_priority(s), tier_is_uniform(s), i + 1, s.len() as int);
}

/// The record that a draw selects has the lowest priority of the list, and a
/// weight above zero unless the whole tier has weight zero.
pub proof fn lemma_pick_properties(s: Seq<Record>, draw: u64)
    requires
        s.len() > 0,
    ensures
        0 <= pick(s, draw) < s.len(),
        forall|j: int| 0 <= j < s.len() ==> s[pick(s, draw)].priority <= #[trigger] s[j].priority,
        s[pick(s, draw)].weight == 0 ==> forall|j: int|
            0 <= j < s.len() && #[trigger] s[j].priority == s[pick(s, draw)].priority
                ==> s[j].weight == 0,
{
    lemma_pick_is_unique(s, draw);
    lemma_lowest_priority_in(s, s.len() as int);
    if s[pick(s, draw)].weight == 0 {
        lemma_zero_share_means_zero_weights(s, lowest_priority(s), s.len() as int);
    }
}

/// The order holds as many records as the list, and each of them is a record
/// of the list.
pub proof fn lemma_order_members(s: Seq<Record>, draws: Seq<u64>, k: int)
    ensures
        weighted_order(s, draws, k).len() == s.len(),
        forall|j: int|
            0 <= j < s.len() ==> s.contains(#[trigger] weighted_order(s, draws, k)[j]),
    decreases s.len(),
{
    if s.len() > 0 {
        let i = pick(s, draw_at(draws, k));
        let rest = weighted_order(s.remove(i), draws, k + 1);
        lemma_order_members(s.remove(i), draws, k + 1);
        assert forall|j: int| 0 <= j < s.len() implies s.contains(
            #[trigger] weighted_order(s, draws, k)[j],
        ) by {
            if j == 0 {
                assert(s[i] == weighted_order(s, draws, k)[0]);
            } else {
                assert(weighted_order(s, draws, k)[j] == rest[j - 1]);
                let m = choose|m: int| 0 <= m < s.remove(i).len() && s.remove(i)[m] == rest[j - 1];
                if m < i {
                    assert(s[m] == rest[j - 1]);
                } else {
                    assert(s[m + 1] == rest[j - 1]);
                }
            }
        }
    }
}

/// Ordering neither drops nor invents a record: the order holds each record
/// as often as the list does.
pub proof fn lemma_order_is_permutation(s: Seq<Record>, draws: Seq<u64>, k: int)
    ensures
        weighted_order(s, draws, k).to_multiset() == s.to_multiset(),
    decreases s.len(),
{
    broadcast use vstd::multiset::group_multiset_axioms;

    if s.len() > 0 {
        let i = pick(s, draw_at(draws, k));
        let rest = weighted_order(s.remove(i), draws, k + 1);
        lemma_order_is_permutation(s.remove(i), draws, k + 1);
        vstd::seq_lib::to_multiset_remove(s, i);
        vstd::seq_lib::to_multiset_insert(rest, 0, s[i]);
        vstd::seq_lib::to_multiset_contains(s, s[i]);
        assert(s.contains(s[i]));
        assert(rest.insert(0, s[i]) =~= weighted_order(s, draws, k));
        assert(weighted_order(s, draws, k).to_multiset() =~= s.to_multiset());
    } else {
        assert(weighted_order(s, draws, k) =~= s);
    }
}

/// Along the order the priorities never fall, whatever the draws.
pub proof fn lemma_order_by_priority(s: Seq<Record>, draws: Seq<u64>, k: int)
    ensures
        priorities_ascend(weighted_order(s, draws, k)),
    decreases s.len(),
{
    if s.len() > 0 {
        let i = pick(s, draw_at(draws, k));
        let out = weighted_order(s, draws, k);
        let rest = weighted_order(s.remove(i), draws, k + 1);
        lemma_order_by_priority(s.remove(i), draws, k + 1);
        lemma_order_members(s, draws, k);
        lemma_pick_properties(s, draw_at(draws, k));
        assert forall|a: int, b: int| 0 <= a < b < out.len() implies out[a].priority
            <= out[b].priority by {
            if a == 0 {
                assert(s.contains(out[b]));
                let m = choose|m: int| 0 <= m < s.len() && s[m] == out[b];
                assert(s[i].priority <= s[m].priority);
            } else {
                assert(out[a] == rest[a - 1] && out[b] == rest[b - 1]);
            }
        }
    }
}

/// Within a tier of the order, a record of weight zero comes after every
/// record of that tier whose weight is above zero, whatever the draws.
pub proof fn lemma_order_zero_weights_last(s: Seq<Record>, draws: Seq<u64>, k: int)
    ensures
        zero_weights_last(weighted_order(s, draws, k)),
    decreases s.len(),
{
    if s.len() > 0 {
        let i = pick(s, draw_at(draws, k));
        let out = weighted_order(s, draws, k);
        let rest = weighted_order(s.remove(i), draws, k + 1);
        lemma_order_zero_weights_last(s.remove(i), draws, k + 1);
        lemma_order_members(s, draws, k);
        lemma_pick_properties(s, draw_at(draws, k));
        assert forall|a: int, b: int|
            0 <= a < b < out.len() && out[a].priority == out[b].priority && out[a].weight
                == 0 implies out[b].weight == 0 by {
            if a == 0 {
                assert(s.contains(out[b]));
                let m = choose|m: int| 0 <= m < s.len() && s[m] == out[b];
                assert(s[m].priority == s[i].priority);
            } else {
                assert(out[a] == rest[a - 1] && out[b] == rest[b - 1]);
            }
        }
    }
}

/// The index of the record of `records` that `draw` selects; nothing where
/// there is no record to select.
pub fn select(records: &Vec<Record>, draw: u64) -> (choice: Option<usize>)
    ensures
        records.len() == 0 ==> choice is None,
        records.len() > 0 ==> choice is Some && choice->0 as int == pick(records@, draw)
            && is_pick(records@, draw, choice->0 as int),
{
    if records.len() == 0 {
        return None;
    }
    let n = records.len();
    let ghost s = records@;
    let mut lowest: u16 = records[0].priority;
    let mut j: usize = 1;
    assert(lowest == lowest_priority_in(s, 1)) by {
        reveal_with_fuel(lowest_priority_in, 2);
    }
    while j < n
        invariant
            1 <= j <= n,
            n == s.len(),
            s == records@,
            lowest == lowest_priority_in(s, j as int),
        decreases n - j,
    {
        if records[j].priority < lowest {
            lowest = records[j].priority;
        }
        j += 1;
    }
    let mut weights: u128 = 0;
    let mut members: u128 = 0;
    j = 0;
    while j < n
        invariant
            j <= n,
            n == s.len(),
            s == records@,
            weights == tier_share(s, lowest, false, j as int),
            members == tier_share(s, lowest, true, j as int),
            weights <= 65535 * j,
            members <= j,
        decreases n - j,
    {
        if records[j].priority == lowest {
            weights += records[j].weight as u128;
            members += 1;
        }
        j += 1;
    }
    let uniform = weights == 0;
    let total: u128 = if uniform {
        members
    } else {
        weights
    };
    proof {
        lemma_tier_total_positive(s);
    }
    let slot: u128 = draw as u128 % total;
    let mut reached: u128 = 0;
    j = 0;
    while j < n
        invariant
            j <= n,
            n == s.len(),
            s == records@,
            lowest == lowest_priority(s),
            uniform == tier_is_uniform(s),
            total == tier_total(s),
            slot == draw as int % tier_total(s),
            slot < total,
            reached == tier_share(s, lowest, uniform, j as int),
            reached <= slot,
        decreases n - j,
    {
        if records[j].priority == lowest {
            let width: u128 = if uniform {
                1
            } else {
                records[j].weight as u128
            };
            proof {
                lemma_tier_share_grows(s, lowest, uniform, j + 1, n as int);
            }
            if slot - reached < width {
                proof {
                    assert(tier_share(s, lowest, uniform, j + 1) == reached + width);
                    assert(is_pick(s, draw, j as int));
                    lemma_pick_is_unique(s, draw);
                }
                return Some(j);
            }
            reached += width;
        }
        j += 1;
    }
    proof {
        assert(false);
    }
    None
}

/// Orders `records` with the draws of `draws`, one for each record in turn;
/// where the draws run out, the remaining ones are zero.
pub fn order_with_draws(records: Vec<Record>, draws: &Vec<u64>) -> (out: Vec<Record>)
    ensures
        out@ == weighted_order(records@, draws@, 0),
        out@.to_multiset() == records@.to_multiset(),
        priorities_ascend(out@),
        zero_weights_last(out@),
{
    let ghost s = records@;
    let mut remaining = records;
    let mut out: Vec<Record> = Vec::new();
    assert(s.len() == remaining.len());
    let mut k: usize = 0;
    while remaining.len() > 0
        invariant
            k == out.len(),
            out.len() + remaining.len() == s.len(),
            s.len() <= usize::MAX,
            out@ + weighted_order(remaining@, draws@, k as int) == weighted_order(s, draws@, 0),
        decreases remaining.len(),
    {
        let draw: u64 = if k < draws.len() {
            draws[k]
        } else {
            0
        };
        let i = match select(&remaining, draw) {
            Some(i) => i,
            None => 0,
        };
        let ghost before = remaining@;
        let ghost done = out@;
        let r = remaining.remove(i);
        out.push(r);
        k += 1;
        proof {
            let rest = weighted_order(before.remove(i as int), draws@, k as int);
            assert(weighted_order(before, draws@, k - 1) == seq![before[i as int]] + rest);
            assert(done.push(r) + rest =~= done + (seq![before[i as int]] + rest));
        }
    }
    proof {
        assert(weighted_order(remaining@, draws@, k as int) =~= Seq::<Record>::empty());
        assert(out@ + Seq::<Record>::empty() =~= out@);
        lemma_order_is_permutation(s, draws@, 0);
        lemma_order_by_priority(s, draws@, 0);
        lemma_order_zero_weights_last(s, draws@, 0);
    }
    out
}

/// Orders `records` with one draw from `rng` for each record. The result is
/// the order under the draws that `rng` handed out, so what holds of the order
/// under every list of draws holds of it.
pub fn order_records<G: RandomSource>(records: Vec<Record>, rng: &mut G) -> (out: Vec<Record>)
    ensures
        exists|draws: Seq<u64>|
            draws.len() == records.len() && out@ == #[trigger] weighted_order(records@, draws, 0),
        out@.to_multiset() == records@.to_multiset(),
        priorities_ascend(out@),
        zero_weights_last(out@),
{
    let n = records.len();
    let mut draws: Vec<u64> = Vec::new();
    while draws.len() < n
        invariant
            draws.len() <= n,
        decreases n - draws.len(),
    {
        let draw = rng.next_u64();
        draws.push(draw);
    }
    order_with_draws(records, &draws)
}

} // verus!
