//! The quasi-statistical organ: how an agent reads the climate of opinion from the
//! public expressions of its neighbours, the bounded memory of those readings, and
//! the rule that declares the public climate settled.
use vstd::prelude::*;
use std::collections::VecDeque;
use crate::world::{Expression, OpinionSign, reads_climate_as_pro, voicing};

verus! {

/// A neighbour's expression is a voice for the side from which `own` reads the
/// climate (`signum(b) >= 0` reads pro voices as its own, `signum(b) < 0` con voices).
pub open spec fn same_side_voice(own: OpinionSign, e: Expression) -> bool {
    if reads_climate_as_pro(own) {
        e == Expression::VoicePro
    } else {
        e == Expression::VoiceCon
    }
}

/// Voicing neighbours among the first `k` entries of `nbrs`.
pub open spec fn voicing_neighbours(nbrs: Seq<usize>, e_pub: Seq<Expression>, k: int) -> nat
    decreases k,
{
    if k <= 0 {
        0
    } else {
        voicing_neighbours(nbrs, e_pub, k - 1) + if voicing(e_pub[nbrs[k - 1] as int]) {
            1nat
        } else {
            0nat
        }
    }
}

/// Neighbours among the first `k` entries of `nbrs` that voice `own`'s side.
pub open spec fn same_side_neighbours(
    nbrs: Seq<usize>,
    e_pub: Seq<Expression>,
    own: OpinionSign,
    k: int,
) -> nat
    decreases k,
{
    if k <= 0 {
        0
    } else {
        same_side_neighbours(nbrs, e_pub, own, k - 1) + if same_side_voice(
            own,
            e_pub[nbrs[k - 1] as int],
        ) {
            1nat
        } else {
            0nat
        }
    }
}

/// All neighbour indices point at agents.
pub open spec fn neighbours_in_range(nbrs: Seq<usize>, n: nat) -> bool {
    forall|k: int| 0 <= k < nbrs.len() ==> #[trigger] nbrs[k] < n
}

/// What an agent observes of its neighbourhood.
#[derive(Debug, Clone, Copy, PartialEq, Eq, Structural)]
pub struct NeighbourhoodTally {
    /// Number of neighbours.
    pub size: usize,
    /// Neighbours that speak (either side).
    pub voicing: usize,
    /// Neighbours that speak for the agent's own side.
    pub same_side: usize,
}

/// The tally of neighbourhood `nbrs` as seen by an agent of opinion sign `own`.
pub open spec fn tally_of(nbrs: Seq<usize>, e_pub: Seq<Expression>, own: OpinionSign) -> NeighbourhoodTally
    recommends
        neighbours_in_range(nbrs, e_pub.len()),
{
    NeighbourhoodTally {
        size: nbrs.len() as usize,
        voicing: voicing_neighbours(nbrs, e_pub, nbrs.len() as int) as usize,
        same_side: same_side_neighbours(nbrs, e_pub, own, nbrs.len() as int) as usize,
    }
}

impl NeighbourhoodTally {
    /// The observed share of one's own side among the speakers, as a fraction
    /// `(same_side, voicing)`; `None` when no neighbour speaks, so that silence gives
    /// no cue about the climate.
    pub fn observed_share(&self) -> (r: Option<(usize, usize)>)
        ensures
            r is None <==> self.voicing == 0,
            r matches Some((a, b)) ==> a == self.same_side && b == self.voicing,
    {
        if self.voicing == 0 {
            None
        } else {
            Some((self.same_side, self.voicing))
        }
    }
}

/// Reads the neighbourhood `nbrs` of an agent of opinion sign `own`: how many
/// neighbours there are, how many speak, and how many speak for its own side.
/// Private opinions of the neighbours are never read.
pub fn neighbourhood_tally(nbrs: &[usize], e_pub: &[Expression], own: OpinionSign) -> (t: NeighbourhoodTally)
    requires
        neighbours_in_range(nbrs@, e_pub@.len()),
    ensures
        t == tally_of(nbrs@, e_pub@, own),
        t.same_side <= t.voicing <= t.size,
{
    let n = nbrs.len();
    let mut voicing_count: usize = 0;
    let mut same: usize = 0;
    for k in 0..n
        invariant
            n == nbrs@.len(),
            neighbours_in_range(nbrs@, e_pub@.len()),
            voicing_count == voicing_neighbours(nbrs@, e_pub@, k as int),
            same == same_side_neighbours(nbrs@, e_pub@, own, k as int),
            same <= voicing_count <= k,
    {
        let j = nbrs[k];
        let e = e_pub[j];
        if e.is_voicing() {
            voicing_count = voicing_count + 1;
        }
        let mine = if own.reads_climate_as_pro() {
            e == Expression::VoicePro
        } else {
            e == Expression::VoiceCon
        };
        if mine {
            same = same + 1;
        }
    }
    NeighbourhoodTally { size: n, voicing: voicing_count, same_side: same }
}

/// The neighbourhood tally of every agent: agent `i` reads `adjacency[i]` with its
/// own opinion sign `signs[i]`.
pub fn neighbourhood_tallies(
    adjacency: &[Vec<usize>],
    e_pub: &[Expression],
    signs: &[OpinionSign],
) -> (ts: Vec<NeighbourhoodTally>)
    requires
        adjacency@.len() == signs@.len(),
        forall|i: int|
            0 <= i < adjacency@.len() ==> neighbours_in_range(
                #[trigger] adjacency@[i]@,
                e_pub@.len(),
            ),
    ensures
        ts@.len() == signs@.len(),
        forall|i: int|
            0 <= i < ts@.len() ==> #[trigger] ts@[i] == tally_of(adjacency@[i]@, e_pub@, signs@[i]),
{
    let n = signs.len();
    let mut ts: Vec<NeighbourhoodTally> = Vec::new();
    for i in 0..n
        invariant
            n == signs@.len(),
            n == adjacency@.len(),
            forall|j: int|
                0 <= j < adjacency@.len() ==> neighbours_in_range(
                    #[trigger] adjacency@[j]@,
                    e_pub@.len(),
                ),
            ts@.len() == i,
            forall|j: int|
                0 <= j < i ==> #[trigger] ts@[j] == tally_of(adjacency@[j]@, e_pub@, signs@[j]),
    {
        let t = neighbourhood_tally(adjacency[i].as_slice(), e_pub, signs[i]);
        ts.push(t);
    }
    ts
}

/// The last `w` elements of `s` (all of `s` when it is shorter).
pub open spec fn keep_last<T>(s: Seq<T>, w: nat) -> Seq<T> {
    if s.len() > w {
        s.subrange(s.len() - w, s.len() as int)
    } else {
        s
    }
}

/// The memory length used for the trend of the local climate: the configured
/// window, at least one.
pub fn history_window(window: usize) -> (w: usize)
    ensures
        w == if window >= 1 {
            window
        } else {
            1
        },
{
    if window >= 1 {
        window
    } else {
        1
    }
}

/// Appends the newest reading to an agent's memory and forgets the oldest ones
/// beyond `window`.
pub fn remember_reading<T>(hist: &mut VecDeque<T>, x: T, window: usize)
    ensures
        final(hist)@ == keep_last(old(hist)@.push(x), window as nat),
{
    hist.push_back(x);
    let ghost pushed = hist@;
    while hist.len() > window
        invariant
            pushed.len() >= hist@.len(),
            hist@ == pushed.subrange(pushed.len() - hist@.len(), pushed.len() as int),
            hist@.len() >= window || hist@ == pushed,
        decreases hist@.len(),
    {
        let ghost before = hist@;
        let _ = hist.pop_front();
        assert(hist@ == before.drop_first());
    }
    assert(hist@ =~= keep_last(pushed, window as nat));
}

/// The comparisons that were made: `None` marks a step with no previous value to
/// compare with.
pub open spec fn made_comparisons(obs: Seq<Option<bool>>) -> Seq<bool>
    decreases obs.len(),
{
    if obs.len() == 0 {
        Seq::empty()
    } else {
        let p = made_comparisons(obs.drop_last());
        match obs.last() {
            Some(b) => p.push(b),
            None => p,
        }
    }
}

/// One step of the stability counter: a small change extends the run, a large one
/// resets it, and a step without a previous value leaves it as it is.
pub open spec fn next_stable_count(count: nat, comparison: Option<bool>) -> nat {
    match comparison {
        Some(true) => count + 1,
        Some(false) => 0,
        None => count,
    }
}

/// The stability counter after a whole sequence of steps, starting from zero.
pub open spec fn stable_count_after(obs: Seq<Option<bool>>) -> nat
    decreases obs.len(),
{
    if obs.len() == 0 {
        0
    } else {
        next_stable_count(stable_count_after(obs.drop_last()), obs.last())
    }
}

/// Number of consecutive stable steps that stop the run.
pub open spec fn stop_after_stable_steps() -> nat {
    5
}

/// Counts consecutive ticks over which the apparent support barely changes, and asks
/// to stop once five such changes follow each other.
#[derive(Debug, Clone, Copy, PartialEq, Eq, Structural)]
pub struct ConvergenceTracker {
    stable_count: usize,
}

impl ConvergenceTracker {
    /// The current run of small changes.
    pub closed spec fn count(self) -> nat {
        self.stable_count as nat
    }

    /// A tracker that has seen nothing.
    pub fn new() -> (t: ConvergenceTracker)
        ensures
            t.count() == 0,
    {
        ConvergenceTracker { stable_count: 0 }
    }

    /// The current run of small changes.
    pub fn stable_count(&self) -> (c: usize)
        ensures
            c == self.count(),
    {
        self.stable_count
    }

    /// Records one tick.  `comparison` is `None` when there is no previous apparent
    /// support to compare with, else whether the change stayed below the tolerance.
    /// Returns whether the run should stop.
    pub fn observe(&mut self, comparison: Option<bool>) -> (stop: bool)
        requires
            comparison == Some(true) ==> old(self).count() < usize::MAX,
        ensures
            final(self).count() == next_stable_count(old(self).count(), comparison),
            stop == (final(self).count() >= stop_after_stable_steps()),
    {
        match comparison {
            Some(true) => self.stable_count = self.stable_count + 1,
            Some(false) => self.stable_count = 0,
            None => {},
        }
        self.stable_count >= 5
    }
}

/// The stability counter is the length of the final run of small changes among the
/// comparisons made: all of the last `count` comparisons were small, and the one
/// before them (if any) was not.
pub proof fn lemma_stable_count_is_final_run(obs: Seq<Option<bool>>)
    ensures
        ({
            let d = made_comparisons(obs);
            let k = stable_count_after(obs);
            &&& k <= d.len()
            &&& forall|j: int| d.len() - k <= j < d.len() ==> #[trigger] d[j]
            &&& k < d.len() ==> !d[d.len() - k - 1]
        }),
    decreases obs.len(),
{
    if obs.len() > 0 {
        lemma_stable_count_is_final_run(obs.drop_last());
        let p = made_comparisons(obs.drop_last());
        let d = made_comparisons(obs);
        match obs.last() {
            Some(b) => {
                assert(d == p.push(b));
                assert forall|j: int| 0 <= j < p.len() implies d[j] == p[j] by {}
            },
            None => {},
        }
    }
}

/// The run is asked to stop exactly when the last five comparisons made were all
/// small changes.
pub proof fn lemma_stop_iff_five_stable_comparisons(obs: Seq<Option<bool>>)
    ensures
        ({
            let d = made_comparisons(obs);
            stable_count_after(obs) >= stop_after_stable_steps() <==> (d.len() >= 5 && forall|
                j: int,
            | d.len() - 5 <= j < d.len() ==> #[trigger] d[j])
        }),
{
    lemma_stable_count_is_final_run(obs);
    let d = made_comparisons(obs);
    let k = stable_count_after(obs);
    if d.len() >= 5 && (forall|j: int| d.len() - 5 <= j < d.len() ==> #[trigger] d[j]) {
        if k < 5 {
            assert(d[d.len() - k - 1]);
        }
    }
}

/// The climate an agent reads depends on its own opinion sign and on its
/// neighbours' public expressions only: the private opinions of the others never
/// enter it.
pub proof fn lemma_climate_ignores_others_private_opinions(
    adjacency: Seq<Seq<usize>>,
    e_pub: Seq<Expression>,
    signs1: Seq<OpinionSign>,
    signs2: Seq<OpinionSign>,
    i: int,
)
    requires
        0 <= i < adjacency.len(),
        i < signs1.len(),
        i < signs2.len(),
        signs1[i] == signs2[i],
    ensures
        tally_of(adjacency[i], e_pub, signs1[i]) == tally_of(adjacency[i], e_pub, signs2[i]),
{
}

/// What the tracker is shown over `close.len() + 1` ticks of the climate
/// aggregation: nothing to compare with at the first tick, then, at each later
/// tick, whether the apparent support stayed within the tolerance of the previous
/// one (`close[j]`).
pub open spec fn tick_comparisons(close: Seq<bool>) -> Seq<Option<bool>> {
    seq![None::<bool>] + close.map_values(|b: bool| Some(b))
}

proof fn lemma_tick_comparisons_made(close: Seq<bool>)
    ensures
        made_comparisons(tick_comparisons(close)) == close,
    decreases close.len(),
{
    if close.len() == 0 {
        let t = tick_comparisons(close);
        assert(t.len() == 1 && t.last() == None::<bool>);
        assert(t.drop_last() =~= Seq::<Option<bool>>::empty());
        assert(made_comparisons(Seq::<Option<bool>>::empty()) =~= Seq::<bool>::empty());
        assert(made_comparisons(t) =~= close);
    } else {
        lemma_tick_comparisons_made(close.drop_last());
        assert(tick_comparisons(close).drop_last() =~= tick_comparisons(close.drop_last()));
        assert(close.drop_last().push(close.last()) =~= close);
    }
}

/// Over `k = close.len() + 1` ticks, the aggregation asks to stop at the `k`-th
/// tick exactly when `k >= 6` and the apparent support stayed within the tolerance
/// at each of the last five ticks.
pub proof fn lemma_stop_after_ticks(close: Seq<bool>)
    ensures
        stable_count_after(tick_comparisons(close)) >= stop_after_stable_steps() <==> (close.len()
            >= 5 && forall|j: int| close.len() - 5 <= j < close.len() ==> #[trigger] close[j]),
{
    lemma_tick_comparisons_made(close);
    lemma_stop_iff_five_stable_comparisons(tick_comparisons(close));
}

/// The expressions an agent hears from its neighbours, in neighbour order.
pub open spec fn heard(nbrs: Seq<usize>, e_pub: Seq<Expression>) -> Seq<Expression> {
    nbrs.map_values(|j: usize| e_pub[j as int])
}

/// The other side's voice in place of each voice; silence stays silence.
pub open spec fn mirrored_expression(e: Expression) -> Expression {
    match e {
        Expression::VoicePro => Expression::VoiceCon,
        Expression::VoiceCon => Expression::VoicePro,
        Expression::Silence => Expression::Silence,
    }
}

/// The opposite opinion sign (`b` replaced by `-b`).
pub open spec fn mirrored_sign(s: OpinionSign) -> OpinionSign {
    match s {
        OpinionSign::Positive => OpinionSign::Negative,
        OpinionSign::PositiveZero => OpinionSign::NegativeZero,
        OpinionSign::NegativeZero => OpinionSign::PositiveZero,
        OpinionSign::Negative => OpinionSign::Positive,
    }
}

proof fn lemma_counts_are_filters(nbrs: Seq<usize>, e_pub: Seq<Expression>, own: OpinionSign, k: int)
    requires
        0 <= k <= nbrs.len(),
    ensures
        voicing_neighbours(nbrs, e_pub, k) == heard(nbrs, e_pub).take(k).filter(
            |x: Expression| x != Expression::Silence,
        ).len(),
        (own == OpinionSign::Positive || own == OpinionSign::PositiveZero) ==> same_side_neighbours(
            nbrs,
            e_pub,
            own,
            k,
        ) == heard(nbrs, e_pub).take(k).filter(|x: Expression| x == Expression::VoicePro).len(),
        (own == OpinionSign::Negative || own == OpinionSign::NegativeZero) ==> same_side_neighbours(
            nbrs,
            e_pub,
            own,
            k,
        ) == heard(nbrs, e_pub).take(k).filter(|x: Expression| x == Expression::VoiceCon).len(),
    decreases k,
{
    reveal(Seq::filter);
    let h = heard(nbrs, e_pub);
    if k > 0 {
        lemma_counts_are_filters(nbrs, e_pub, own, k - 1);
        assert(h.take(k).drop_last() =~= h.take(k - 1));
        assert(h.take(k).last() == e_pub[nbrs[k - 1] as int]);
    } else {
        assert(h.take(0) =~= Seq::<Expression>::empty());
    }
}

/// What an agent reads of its neighbourhood, over the expressions it hears: the
/// speakers are the neighbours that are not silent, and its own side is the pro
/// voices for an agent with `b >= +0` and the con voices for one with `b <= -0`.
pub proof fn lemma_tally_counts_heard_voices(
    nbrs: Seq<usize>,
    e_pub: Seq<Expression>,
    own: OpinionSign,
)
    requires
        neighbours_in_range(nbrs, e_pub.len()),
        nbrs.len() <= usize::MAX,
    ensures
        tally_of(nbrs, e_pub, own).size == nbrs.len(),
        tally_of(nbrs, e_pub, own).voicing == heard(nbrs, e_pub).filter(
            |x: Expression| x != Expression::Silence,
        ).len(),
        (own == OpinionSign::Positive || own == OpinionSign::PositiveZero) ==> tally_of(
            nbrs,
            e_pub,
            own,
        ).same_side == heard(nbrs, e_pub).filter(|x: Expression| x == Expression::VoicePro).len(),
        (own == OpinionSign::Negative || own == OpinionSign::NegativeZero) ==> tally_of(
            nbrs,
            e_pub,
            own,
        ).same_side == heard(nbrs, e_pub).filter(|x: Expression| x == Expression::VoiceCon).len(),
{
    let n = nbrs.len() as int;
    lemma_counts_are_filters(nbrs, e_pub, own, n);
    assert(heard(nbrs, e_pub).take(n) =~= heard(nbrs, e_pub));
    heard(nbrs, e_pub).lemma_filter_len(|x: Expression| x != Expression::Silence);
    heard(nbrs, e_pub).lemma_filter_len(|x: Expression| x == Expression::VoicePro);
    heard(nbrs, e_pub).lemma_filter_len(|x: Expression| x == Expression::VoiceCon);
}

proof fn lemma_mirror_counts(nbrs: Seq<usize>, e_pub: Seq<Expression>, own: OpinionSign, k: int)
    requires
        0 <= k <= nbrs.len(),
        neighbours_in_range(nbrs, e_pub.len()),
    ensures
        voicing_neighbours(nbrs, e_pub.map_values(|x: Expression| mirrored_expression(x)), k)
            == voicing_neighbours(nbrs, e_pub, k),
        same_side_neighbours(
            nbrs,
            e_pub.map_values(|x: Expression| mirrored_expression(x)),
            mirrored_sign(own),
            k,
        ) == same_side_neighbours(nbrs, e_pub, own, k),
    decreases k,
{
    if k > 0 {
        lemma_mirror_counts(nbrs, e_pub, own, k - 1);
        assert(nbrs[k - 1] < e_pub.len());
    }
}

/// Swapping the two sides everywhere (every voice for its opposite, and the agent's
/// own opinion for its negation) leaves what the agent reads unchanged: the reading
/// favours neither side.
pub proof fn lemma_tally_symmetric_under_side_swap(
    nbrs: Seq<usize>,
    e_pub: Seq<Expression>,
    own: OpinionSign,
)
    requires
        neighbours_in_range(nbrs, e_pub.len()),
    ensures
        tally_of(nbrs, e_pub.map_values(|x: Expression| mirrored_expression(x)), mirrored_sign(own))
            == tally_of(nbrs, e_pub, own),
{
    lemma_mirror_counts(nbrs, e_pub, own, nbrs.len() as int);
}

} // verus!
