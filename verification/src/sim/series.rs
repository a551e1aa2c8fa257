//! How a series of matches is seeded, seated and split over threads.
use vstd::prelude::*;
use crate::model::PlayerId;
use crate::sim::players::AiType;
use crate::sim::stats::{TallyView, merged, one_match, empty_tally};

verus! {

/// What the second player's seed adds to the match seed (with wrap-around).
pub const SECOND_SEED_OFFSET: u64 = 9001;

/// What the swapped half of a blended series adds to the seed base.
pub const SWAPPED_SEED_OFFSET: u64 = 50000;

/// One series: who sits first and second, the seed of its first match and
/// whose wins it counts.
#[derive(Clone, Copy, PartialEq, Eq, Debug, Structural)]
pub struct SeriesPlan {
    pub first_ai: AiType,
    pub second_ai: AiType,
    pub seed_base: u64,
    pub count_player: PlayerId,
}

/// The seeds of one match: the game's, and those of the two players.
#[derive(Clone, Copy, PartialEq, Eq, Debug, Structural)]
pub struct MatchSeeds {
    pub game: u64,
    pub first_player: u64,
    pub second_player: u64,
}

/// `seed + 9001`, wrapping around at 2^64.
pub open spec fn second_seed(seed: u64) -> u64 {
    ((seed + SECOND_SEED_OFFSET) % 0x1_0000_0000_0000_0000) as u64
}

/// The seeds of match `match_num` of a series: the game and the first player
/// get `seed_base + match_num`, the second player 9001 more (wrapping).
pub fn match_seeds(seed_base: u64, match_num: usize) -> (r: MatchSeeds)
    requires
        seed_base + match_num <= u64::MAX,
    ensures
        r.game == seed_base + match_num,
        r.first_player == r.game,
        r.second_player == second_seed(r.game),
{
    let seed = seed_base + match_num as u64;
    MatchSeeds { game: seed, first_player: seed, second_player: seed.wrapping_add(SECOND_SEED_OFFSET) }
}

/// The two halves of a blended series: `p1_ai` first with its wins counted as
/// the first player's, then the seats swapped, from a seed base 50000 higher,
/// with its wins counted as the second player's.
pub fn blended_plans(p1_ai: AiType, p2_ai: AiType, seed_base: u64) -> (r: (SeriesPlan, SeriesPlan))
    requires
        seed_base + SWAPPED_SEED_OFFSET <= u64::MAX,
    ensures
        r.0 == (SeriesPlan { first_ai: p1_ai, second_ai: p2_ai, seed_base, count_player: PlayerId::P1 }),
        r.1 == (SeriesPlan {
            first_ai: p2_ai,
            second_ai: p1_ai,
            seed_base: (seed_base + SWAPPED_SEED_OFFSET) as u64,
            count_player: PlayerId::P2,
        }),
{
    (
        SeriesPlan { first_ai: p1_ai, second_ai: p2_ai, seed_base, count_player: PlayerId::P1 },
        SeriesPlan { first_ai: p2_ai, second_ai: p1_ai, seed_base: seed_base + SWAPPED_SEED_OFFSET, count_player: PlayerId::P2 },
    )
}

/// The type seated in a given seat of a series.
pub open spec fn seated(plan: SeriesPlan, seat: PlayerId) -> AiType {
    match seat {
        PlayerId::P1 => plan.first_ai,
        PlayerId::P2 => plan.second_ai,
    }
}

/// In both halves of a blended series the counted seat holds `p1_ai`: the
/// blended wins are always those of the first player type.
pub proof fn lemma_blended_counts_first_type(p1_ai: AiType, p2_ai: AiType, seed_base: u64, a: SeriesPlan, b: SeriesPlan)
    requires
        seed_base + SWAPPED_SEED_OFFSET <= u64::MAX,
        a == (SeriesPlan { first_ai: p1_ai, second_ai: p2_ai, seed_base, count_player: PlayerId::P1 }),
        b == (SeriesPlan {
            first_ai: p2_ai,
            second_ai: p1_ai,
            seed_base: (seed_base + SWAPPED_SEED_OFFSET) as u64,
            count_player: PlayerId::P2,
        }),
    ensures
        seated(a, a.count_player) == p1_ai,
        seated(b, b.count_player) == p1_ai,
        a.seed_base < b.seed_base,
{
}

/// The seed base of a benchmark pairing: 100000 per deck and 10000 per
/// opponent.
pub fn bench_seed_base(deck_idx: usize, opp_idx: usize) -> (r: u64)
    requires
        deck_idx * 100000 + opp_idx * 10000 <= u64::MAX,
    ensures
        r == deck_idx * 100000 + opp_idx * 10000,
{
    (deck_idx as u64) * 100000 + (opp_idx as u64) * 10000
}

/// The seed of a match of the deck matrix: 1000 per row deck, 100 per column
/// deck, one per match, and 50000 more for the swapped half of a blend.
pub fn matrix_seed(i: usize, j: usize, match_num: usize, swapped: bool) -> (r: u64)
    requires
        i * 1000 + j * 100 + match_num + (if swapped { 50000int } else { 0 }) <= usize::MAX,
    ensures
        r == i * 1000 + j * 100 + match_num + (if swapped { 50000int } else { 0 }),
{
    let base = i * 1000 + j * 100 + match_num;
    if swapped {
        (base + 50000) as u64
    } else {
        base as u64
    }
}

/// The number of threads a series uses: what was asked for, at least one and
/// at most one per match.
pub open spec fn thread_count_for(threads: int, num_matches: int) -> int {
    let t = if threads < 1 { 1 } else { threads };
    let m = if num_matches < 1 { 1 } else { num_matches };
    if t < m { t } else { m }
}

pub fn series_thread_count(threads: usize, num_matches: usize) -> (r: usize)
    ensures
        r == thread_count_for(threads as int, num_matches as int),
        1 <= r,
{
    let t = if threads < 1 { 1 } else { threads };
    let m = if num_matches < 1 { 1 } else { num_matches };
    if t < m { t } else { m }
}

/// The number of matches per thread: `num_matches` divided by the thread
/// count, rounded up.
pub open spec fn chunk_for(num_matches: int, thread_count: int) -> int {
    (num_matches + thread_count - 1) / thread_count
}

/// The range of matches of thread `t`.
pub open spec fn thread_range(num_matches: int, chunk: int, t: int) -> (int, int) {
    let start = t * chunk;
    (start, if start + chunk < num_matches { start + chunk } else { num_matches })
}

/// The threads' ranges cover `0..num_matches` in order, each non-empty, the
/// next starting where the last ended.
pub open spec fn covers(r: Seq<(usize, usize)>, num_matches: int) -> bool {
    &&& (num_matches == 0 <==> r.len() == 0)
    &&& (r.len() > 0 ==> r[0].0 == 0 && r.last().1 == num_matches)
    &&& forall|k: int| 0 <= k < r.len() ==> #[trigger] r[k].0 < r[k].1
    &&& forall|k: int| 0 < k < r.len() ==> #[trigger] r[k].0 == r[k - 1].1
}

/// The ranges of the threads that have matches to play, in thread order:
/// thread `t` plays matches `t * chunk` up to `(t + 1) * chunk` or the end,
/// where `chunk` is the matches per thread rounded up. The rounding adds
/// `num_matches + thread_count` before it takes 1 away, so that sum must fit.
pub fn thread_ranges(num_matches: usize, thread_count: usize) -> (r: Vec<(usize, usize)>)
    requires
        1 <= thread_count,
        num_matches + thread_count <= usize::MAX,
    ensures
        r@.len() <= thread_count,
        forall|k: int| 0 <= k < r@.len() ==> {
            let range = thread_range(num_matches as int, chunk_for(num_matches as int, thread_count as int), k);
            (#[trigger] r@[k]).0 == range.0 && r@[k].1 == range.1
        },
        covers(r@, num_matches as int),
{
    let chunk = (num_matches + thread_count - 1) / thread_count;
    let ghost n = num_matches as int;
    let ghost tc = thread_count as int;
    assert(chunk * tc <= n + tc - 1 && n <= chunk * tc) by (nonlinear_arith)
        requires
            chunk == (n + tc - 1) / tc,
            tc >= 1,
            n >= 0,
    ;
    assert(n > 0 ==> chunk >= 1) by (nonlinear_arith)
        requires
            chunk == (n + tc - 1) / tc,
            tc >= 1,
            n >= 0,
    ;
    let mut r: Vec<(usize, usize)> = Vec::new();
    let mut t: usize = 0;
    let mut start: usize = 0;
    while t < thread_count
        invariant
            1 <= tc == thread_count,
            n == num_matches,
            n + tc - 1 <= usize::MAX,
            chunk == chunk_for(n, tc),
            chunk * tc <= n + tc - 1,
            n <= chunk * tc,
            n > 0 ==> chunk >= 1,
            t <= tc,
            start == t * chunk,
            r@.len() <= t,
            start < n ==> r@.len() == t,
            n == 0 ==> r@.len() == 0,
            t > 0 && n > 0 ==> r@.len() > 0,
            r@.len() > 0 ==> r@[0].0 == 0,
            r@.len() > 0 ==> r@.last().1 == (if start < n { start as int } else { n }),
            forall|k: int| 0 <= k < r@.len() ==> {
                let range = thread_range(n, chunk as int, k);
                (#[trigger] r@[k]).0 == range.0 && r@[k].1 == range.1
            },
            forall|k: int| 0 <= k < r@.len() ==> #[trigger] r@[k].0 < r@[k].1,
            forall|k: int| 0 < k < r@.len() ==> #[trigger] r@[k].0 == r@[k - 1].1,
        decreases tc - t,
    {
        assert(start + chunk <= n + tc - 1 && start + chunk == (t + 1) * chunk) by (nonlinear_arith)
            requires
                start == t * chunk,
                t < tc,
                chunk * tc <= n + tc - 1,
                chunk >= 0,
        ;
        let end = if start + chunk < num_matches { start + chunk } else { num_matches };
        if start < end {
            r.push((start, end));
        }
        start = start + chunk;
        t = t + 1;
    }
    assert(start >= n) by (nonlinear_arith)
        requires
            start == t * chunk,
            t == tc,
            n <= chunk * tc,
    ;
    r
}

// ---------------------------------------------------------------- laws

/// What the match of a given number gives: its winner and its turn count
/// when it finished, nothing when it did not.
pub type MatchResults = spec_fn(int) -> Option<(PlayerId, usize)>;

/// The tally of one match for a series that counts the wins of `count`.
pub open spec fn match_tally(results: MatchResults, count: PlayerId, m: int) -> TallyView {
    match results(m) {
        Some((winner, turns)) => one_match(winner == count, turns),
        None => empty_tally(),
    }
}

/// The tally of matches `a..b` played one after another.
pub open spec fn range_tally(results: MatchResults, count: PlayerId, a: int, b: int) -> TallyView
    decreases b - a,
{
    if b <= a {
        empty_tally()
    } else {
        merged(range_tally(results, count, a, b - 1), match_tally(results, count, b - 1))
    }
}

/// The tallies of the ranges, merged in range order.
pub open spec fn ranges_tally(results: MatchResults, count: PlayerId, r: Seq<(usize, usize)>) -> TallyView
    decreases r.len(),
{
    if r.len() == 0 {
        empty_tally()
    } else {
        merged(ranges_tally(results, count, r.drop_last()), range_tally(results, count, r.last().0 as int, r.last().1 as int))
    }
}

/// Playing `a..c` is playing `a..b` and then `b..c`.
pub proof fn lemma_range_tally_split(results: MatchResults, count: PlayerId, a: int, b: int, c: int)
    requires
        a <= b <= c,
    ensures
        range_tally(results, count, a, c) == merged(range_tally(results, count, a, b), range_tally(results, count, b, c)),
    decreases c - b,
{
    if c == b {
        assert(range_tally(results, count, a, b).2 + Seq::<usize>::empty() =~= range_tally(results, count, a, b).2);
    } else {
        lemma_range_tally_split(results, count, a, b, c - 1);
        let x = range_tally(results, count, a, b);
        let y = range_tally(results, count, b, c - 1);
        let z = match_tally(results, count, c - 1);
        assert((x.2 + y.2) + z.2 =~= x.2 + (y.2 + z.2));
    }
}

/// Whatever ranges cover the matches `0..n` in order, merging their tallies
/// in range order gives the tally of playing `0..n` one after another. With
/// `thread_ranges`, whose ranges cover the matches, a series' tally does not
/// depend on the number of threads.
pub proof fn lemma_series_tally_thread_free(results: MatchResults, count: PlayerId, r: Seq<(usize, usize)>, n: int)
    requires
        covers(r, n),
    ensures
        ranges_tally(results, count, r) == range_tally(results, count, 0, n),
    decreases r.len(),
{
    if r.len() == 0 {
        assert(n == 0);
    } else {
        let rest = r.drop_last();
        let m = r.last().0 as int;
        if rest.len() > 0 {
            assert(r[r.len() - 1].0 == r[r.len() - 2].1);
            assert(rest.last() == r[r.len() - 2]);
            assert(rest.last().1 > rest.last().0);
        }
        assert(covers(rest, m)) by {
            assert forall|k: int| 0 <= k < rest.len() implies #[trigger] rest[k].0 < rest[k].1 by {
                assert(rest[k] == r[k]);
            }
            assert forall|k: int| 0 < k < rest.len() implies #[trigger] rest[k].0 == rest[k - 1].1 by {
                assert(rest[k] == r[k]);
                assert(rest[k - 1] == r[k - 1]);
            }
        }
        lemma_series_tally_thread_free(results, count, rest, m);
        lemma_range_tally_split(results, count, 0, m, n);
    }
}

/// How many of the matches `0..n` the player type `ai` won, seated as `plan`
/// seats the types.
pub open spec fn wins_of(ai: AiType, plan: SeriesPlan, results: MatchResults, n: int) -> int
    decreases n,
{
    if n <= 0 {
        0
    } else {
        wins_of(ai, plan, results, n - 1) + match results(n - 1) {
            Some((winner, _)) => if seated(plan, winner) == ai { 1int } else { 0 },
            None => 0,
        }
    }
}

/// A series that counts the seat holding `ai`, while the other seat holds
/// another type, counts exactly the wins of `ai`.
pub proof fn lemma_series_counts_type(ai: AiType, plan: SeriesPlan, results: MatchResults, n: int)
    requires
        seated(plan, plan.count_player) == ai,
        plan.first_ai != plan.second_ai,
        n >= 0,
    ensures
        range_tally(results, plan.count_player, 0, n).0 == wins_of(ai, plan, results, n),
    decreases n,
{
    if n > 0 {
        lemma_series_counts_type(ai, plan, results, n - 1);
    }
}

/// The blend of two different player types is the merge of its two halves:
/// its matches and turns are those of the first half followed by the swapped
/// half, and its wins are the matches that `p1_ai` won, in either seat.
pub proof fn lemma_blend_is_merge_of_halves(
    p1_ai: AiType,
    p2_ai: AiType,
    seed_base: u64,
    n: int,
    first_results: MatchResults,
    swapped_results: MatchResults,
)
    requires
        p1_ai != p2_ai,
        n >= 0,
        seed_base + SWAPPED_SEED_OFFSET <= u64::MAX,
    ensures
        ({
            let a = SeriesPlan { first_ai: p1_ai, second_ai: p2_ai, seed_base, count_player: PlayerId::P1 };
            let b = SeriesPlan {
                first_ai: p2_ai,
                second_ai: p1_ai,
                seed_base: (seed_base + SWAPPED_SEED_OFFSET) as u64,
                count_player: PlayerId::P2,
            };
            let blend = merged(
                range_tally(first_results, a.count_player, 0, n),
                range_tally(swapped_results, b.count_player, 0, n),
            );
            &&& blend.0 == wins_of(p1_ai, a, first_results, n) + wins_of(p1_ai, b, swapped_results, n)
            &&& blend.1 == range_tally(first_results, a.count_player, 0, n).1 + range_tally(swapped_results, b.count_player, 0, n).1
            &&& blend.2 == range_tally(first_results, a.count_player, 0, n).2 + range_tally(swapped_results, b.count_player, 0, n).2
        }),
{
    let a = SeriesPlan { first_ai: p1_ai, second_ai: p2_ai, seed_base, count_player: PlayerId::P1 };
    let b = SeriesPlan {
        first_ai: p2_ai,
        second_ai: p1_ai,
        seed_base: (seed_base + SWAPPED_SEED_OFFSET) as u64,
        count_player: PlayerId::P2,
    };
    lemma_series_counts_type(p1_ai, a, first_results, n);
    lemma_series_counts_type(p1_ai, b, swapped_results, n);
}

} // verus!
