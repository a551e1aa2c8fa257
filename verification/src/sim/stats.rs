//! What a series of matches counts: finished matches, wins of the counted
//! seat and the number of turns of each finished match, and the median, 90th
//! percentile and maximum of those turns.
use vstd::prelude::*;
use crate::model::PlayerId;

verus! {

broadcast use vstd::seq_lib::group_seq_properties;

/// The tally of a series. Each finished match adds one to `total`, one to
/// `p1_wins` when the counted seat won, and its turn count to `turns`.
pub struct MatchStats {
    pub p1_wins: usize,
    pub total: usize,
    pub turns: Vec<usize>,
}

/// A tally as numbers: wins of the counted seat, finished matches, and the
/// turn count of each finished match in the order they were counted.
pub type TallyView = (int, int, Seq<usize>);

/// Two tallies added up: counts add, the second's turns follow the first's.
pub open spec fn merged(a: TallyView, b: TallyView) -> TallyView {
    (a.0 + b.0, a.1 + b.1, a.2 + b.2)
}

/// The tally of one finished match.
pub open spec fn one_match(won: bool, turns: usize) -> TallyView {
    (if won { 1int } else { 0 }, 1, seq![turns])
}

pub open spec fn empty_tally() -> TallyView {
    (0, 0, Seq::empty())
}

impl MatchStats {
    /// The tally as numbers.
    pub open spec fn tally(&self) -> TallyView {
        (self.p1_wins as int, self.total as int, self.turns@)
    }

    /// Wins never exceed matches, and there is one turn count per match.
    pub open spec fn wf(&self) -> bool {
        self.p1_wins <= self.total && self.turns@.len() == self.total
    }

    /// An empty tally.
    pub fn new() -> (r: MatchStats)
        ensures
            r.p1_wins == 0,
            r.total == 0,
            r.turns@.len() == 0,
            r.wf(),
    {
        MatchStats { p1_wins: 0, total: 0, turns: Vec::new() }
    }

    /// Counts one finished match that `winner` won after `turns` turns.
    pub fn record(&mut self, winner: PlayerId, count_player: PlayerId, turns: usize)
        requires
            old(self).total < usize::MAX,
            old(self).p1_wins < usize::MAX,
        ensures
            final(self).total == old(self).total + 1,
            final(self).p1_wins == old(self).p1_wins + (if winner == count_player { 1int } else { 0 }),
            final(self).turns@ == old(self).turns@.push(turns),
            final(self).tally() == merged(old(self).tally(), one_match(winner == count_player, turns)),
            old(self).wf() ==> final(self).wf(),
    {
        self.total = self.total + 1;
        if winner == count_player {
            self.p1_wins = self.p1_wins + 1;
        }
        self.turns.push(turns);
    }

    /// Adds another tally to this one: counts add up, turn counts follow
    /// this tally's own.
    pub fn merge(&mut self, other: MatchStats)
        requires
            old(self).p1_wins + other.p1_wins <= usize::MAX,
            old(self).total + other.total <= usize::MAX,
        ensures
            final(self).p1_wins == old(self).p1_wins + other.p1_wins,
            final(self).total == old(self).total + other.total,
            final(self).turns@ == old(self).turns@ + other.turns@,
            final(self).tally() == merged(old(self).tally(), other.tally()),
            old(self).wf() && other.wf() ==> final(self).wf(),
    {
        self.p1_wins = self.p1_wins + other.p1_wins;
        self.total = self.total + other.total;
        let mut more = other.turns;
        self.turns.append(&mut more);
    }

    /// The matches that the counted seat did not win.
    pub fn p2_wins(&self) -> (r: usize)
        requires
            self.wf(),
        ensures
            r == self.total - self.p1_wins,
    {
        self.total - self.p1_wins
    }
}

impl Default for MatchStats {
    fn default() -> (r: MatchStats)
        ensures
            r.p1_wins == 0,
            r.total == 0,
            r.turns@.len() == 0,
    {
        MatchStats::new()
    }
}

pub open spec fn sorted(s: Seq<usize>) -> bool {
    forall|i: int, j: int| 0 <= i <= j < s.len() ==> s[i] <= s[j]
}

/// The turn counts in ascending order.
pub fn sort_turns(turns: &Vec<usize>) -> (r: Vec<usize>)
    ensures
        sorted(r@),
        r@.to_multiset() == turns@.to_multiset(),
        r@.len() == turns@.len(),
{
    let mut r: Vec<usize> = Vec::new();
    let mut i: usize = 0;
    while i < turns.len()
        invariant
            i <= turns@.len(),
            sorted(r@),
            r@.len() == i,
            r@.to_multiset() == turns@.take(i as int).to_multiset(),
        decreases turns@.len() - i,
    {
        let x = turns[i];
        let mut j: usize = r.len();
        while j > 0 && r[j - 1] > x
            invariant
                j <= r@.len(),
                sorted(r@),
                forall|k: int| j <= k < r@.len() ==> r@[k] > x,
            decreases j,
        {
            j = j - 1;
        }
        let ghost before = r@;
        r.insert(j, x);
        proof {
            assert(r@ =~= before.take(j as int).push(x) + before.skip(j as int));
            assert(turns@.take(i + 1) =~= turns@.take(i as int).push(x));
            assert(before =~= before.take(j as int) + before.skip(j as int));
            vstd::seq_lib::lemma_multiset_commutative(before.take(j as int), before.skip(j as int));
            vstd::seq_lib::lemma_multiset_commutative(before.take(j as int).push(x), before.skip(j as int));
            assert forall|a: int, b: int| 0 <= a <= b < r@.len() implies r@[a] <= r@[b] by {
                if a < j && b > j {
                    assert(r@[b] == before[b - 1]);
                } else if a == j && b > j {
                    assert(r@[b] == before[b - 1]);
                } else if a < j && b == j {
                    assert(r@[a] == before[a]);
                    if j > 0 {
                        assert(before[j - 1] <= x);
                    }
                } else if a > j {
                    assert(r@[a] == before[a - 1]);
                    assert(r@[b] == before[b - 1]);
                }
            }
        }
        i = i + 1;
    }
    assert(turns@.take(i as int) =~= turns@);
    r
}

/// The positions of the median, the 90th percentile and the maximum in `n`
/// sorted values: `n / 2`, `9n / 10` rounded down (never past the end) and
/// `n - 1`.
pub open spec fn percentile_positions(n: int) -> (int, int, int) {
    let p90 = (9 * n) / 10;
    (n / 2, if p90 < n - 1 { p90 } else { n - 1 }, n - 1)
}

pub fn stat_positions(n: usize) -> (r: (usize, usize, usize))
    requires
        n > 0,
    ensures
        r.0 == percentile_positions(n as int).0,
        r.1 == percentile_positions(n as int).1,
        r.2 == percentile_positions(n as int).2,
        r.0 < n && r.1 < n && r.2 < n,
{
    let tenth = n / 10;
    let up = if n % 10 == 0 { tenth } else { tenth + 1 };
    let p90 = n - up;
    assert(p90 == (9 * n) / 10) by (nonlinear_arith)
        requires
            tenth == n / 10,
            up == (if n % 10 == 0 { tenth as int } else { tenth + 1 }),
            p90 == n - up,
            n > 0,
    ;
    let p = if p90 < n - 1 { p90 } else { n - 1 };
    (n / 2, p, n - 1)
}

/// The median, 90th percentile and maximum number of turns, and how many
/// matches they were taken over.
#[derive(Clone, Copy, PartialEq, Eq, Debug, Structural)]
pub struct TurnSummary {
    pub median: usize,
    pub p90: usize,
    pub max: usize,
    pub games: usize,
}

/// The summary of a sorted sequence of turn counts.
pub open spec fn summary_of(s: Seq<usize>) -> TurnSummary {
    let pos = percentile_positions(s.len() as int);
    TurnSummary { median: s[pos.0], p90: s[pos.1], max: s[pos.2], games: s.len() as usize }
}

/// The turn summary of a series, `None` when no match finished.
pub fn turn_summary(turns: &Vec<usize>) -> (r: Option<TurnSummary>)
    ensures
        r is None <==> turns@.len() == 0,
        r matches Some(t) ==> exists|s: Seq<usize>| #![trigger summary_of(s)]
            sorted(s) && s.to_multiset() == turns@.to_multiset() && s.len() == turns@.len() && t == summary_of(s),
{
    if turns.len() == 0 {
        return None;
    }
    let s = sort_turns(turns);
    let (m, p, x) = stat_positions(s.len());
    let t = TurnSummary { median: s[m], p90: s[p], max: s[x], games: s.len() };
    assert(t == summary_of(s@));
    Some(t)
}

/// Sorting the same turn counts twice gives the same sequence: a summary does
/// not depend on the order in which the matches finished.
pub proof fn lemma_sorted_unique(a: Seq<usize>, b: Seq<usize>)
    requires
        sorted(a),
        sorted(b),
        a.to_multiset() == b.to_multiset(),
    ensures
        a == b,
    decreases a.len(),
{
    assert(a.len() == a.to_multiset().len());
    assert(b.len() == b.to_multiset().len());
    if a.len() == 0 {
        assert(a =~= b);
    } else {
        let n = a.len() - 1;
        let x = a[n];
        let y = b[n];
        assert(a.contains(x));
        assert(b.to_multiset().count(x) > 0);
        assert(b.contains(x));
        let i = choose|i: int| 0 <= i < b.len() && b[i] == x;
        assert(x <= y);
        assert(b.contains(y));
        assert(a.to_multiset().count(y) > 0);
        assert(a.contains(y));
        let j = choose|j: int| 0 <= j < a.len() && a[j] == y;
        assert(y <= x);
        assert(a.remove(n) =~= a.drop_last());
        assert(b.remove(n) =~= b.drop_last());
        assert(a.drop_last().to_multiset() == b.drop_last().to_multiset()) by {
            assert(a.remove(n).to_multiset() =~= a.to_multiset().remove(x));
            assert(b.remove(n).to_multiset() =~= b.to_multiset().remove(y));
        }
        lemma_sorted_unique(a.drop_last(), b.drop_last());
        assert(a =~= a.drop_last().push(x));
        assert(b =~= b.drop_last().push(y));
    }
}

} // verus!
