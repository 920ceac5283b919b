//! Tallies behind the population metrics.
//!
//! The metrics of the model (voice by camp, log-odds of speaking, hardcore survival,
//! future-assessment gap) are ratios and means; what decides them is which agents
//! count in which group.  That grouping is defined here: the majority camp is the
//! one that holds at least half of the population in truth, agents with a zero
//! opinion belong to neither camp, and an agent "voices its own side" when its
//! public expression is the voice of its private camp.
use vstd::prelude::*;
use crate::world::{
    Expression, OpinionSign, chosen_expression, count_pro, count_pro_opinions, is_con, is_pro,
};

verus! {

/// The role of a camp in the population.
#[derive(Debug, Clone, Copy, PartialEq, Eq, Structural)]
pub enum Role {
    /// The side that holds at least half of the population (in private).
    Majority,
    /// The other side.
    Minority,
}

/// The true support `#{b_i > 0} / n` is at least one half, so the con side is the
/// minority (an empty population has support 0).
pub open spec fn minority_is_con(signs: Seq<OpinionSign>) -> bool {
    signs.len() > 0 && 2 * count_pro(signs) >= signs.len()
}

/// Role of an agent: agents with a zero opinion have none.
pub open spec fn role_of(s: OpinionSign, minority_con: bool) -> Option<Role> {
    if !is_pro(s) && !is_con(s) {
        None
    } else if is_con(s) == minority_con {
        Some(Role::Minority)
    } else {
        Some(Role::Majority)
    }
}

/// The agent's public expression is the voice of its own private camp.
pub open spec fn voices_own_side(s: OpinionSign, e: Expression) -> bool {
    if is_con(s) {
        e == Expression::VoiceCon
    } else {
        e == Expression::VoicePro
    }
}

/// Agents among the first `k` that have role `r`.
pub open spec fn role_count(signs: Seq<OpinionSign>, minority_con: bool, r: Role, k: int) -> nat
    decreases k,
{
    if k <= 0 {
        0
    } else {
        role_count(signs, minority_con, r, k - 1) + if role_of(signs[k - 1], minority_con) == Some(
            r,
        ) {
            1nat
        } else {
            0nat
        }
    }
}

/// Agents among the first `k` that have role `r` and voice their own side.
pub open spec fn role_voicing_count(
    signs: Seq<OpinionSign>,
    e_pub: Seq<Expression>,
    minority_con: bool,
    r: Role,
    k: int,
) -> nat
    decreases k,
{
    if k <= 0 {
        0
    } else {
        role_voicing_count(signs, e_pub, minority_con, r, k - 1) + if role_of(
            signs[k - 1],
            minority_con,
        ) == Some(r) && voices_own_side(signs[k - 1], e_pub[k - 1]) {
            1nat
        } else {
            0nat
        }
    }
}

/// Minority agents among the first `k` that are hardcore.
pub open spec fn hardcore_count(
    signs: Seq<OpinionSign>,
    hardcore: Seq<bool>,
    minority_con: bool,
    k: int,
) -> nat
    decreases k,
{
    if k <= 0 {
        0
    } else {
        hardcore_count(signs, hardcore, minority_con, k - 1) + if role_of(
            signs[k - 1],
            minority_con,
        ) == Some(Role::Minority) && hardcore[k - 1] {
            1nat
        } else {
            0nat
        }
    }
}

/// Hardcore minority agents among the first `k` that voice their own side.
pub open spec fn hardcore_voicing_count(
    signs: Seq<OpinionSign>,
    e_pub: Seq<Expression>,
    hardcore: Seq<bool>,
    minority_con: bool,
    k: int,
) -> nat
    decreases k,
{
    if k <= 0 {
        0
    } else {
        hardcore_voicing_count(signs, e_pub, hardcore, minority_con, k - 1) + if role_of(
            signs[k - 1],
            minority_con,
        ) == Some(Role::Minority) && hardcore[k - 1] && voices_own_side(signs[k - 1], e_pub[k - 1]) {
            1nat
        } else {
            0nat
        }
    }
}

/// Agents among the first `k` whose opinion is nonzero.
pub open spec fn nonzero_count(signs: Seq<OpinionSign>, k: int) -> nat
    decreases k,
{
    if k <= 0 {
        0
    } else {
        nonzero_count(signs, k - 1) + if is_pro(signs[k - 1]) || is_con(signs[k - 1]) {
            1nat
        } else {
            0nat
        }
    }
}

/// Whether the con side is the minority: the true support `#{b_i > 0} / n` is at
/// least one half.  The comparison is made on the counts (`2·#{b_i > 0} >= n`), and
/// an empty population has support 0.
pub fn minority_side_is_con(signs: &[OpinionSign]) -> (r: bool)
    ensures
        r == minority_is_con(signs@),
{
    let n = signs.len();
    if n == 0 {
        return false;
    }
    let pro = count_pro_opinions(signs);
    pro >= n - pro
}

/// The role of one agent, given which side is the minority.
pub fn agent_role(s: OpinionSign, minority_con: bool) -> (r: Option<Role>)
    ensures
        r == role_of(s, minority_con),
{
    if !s.is_pro() && !s.is_con() {
        None
    } else if s.is_con() == minority_con {
        Some(Role::Minority)
    } else {
        Some(Role::Majority)
    }
}

/// Whether the agent voices its own private camp.
pub fn voices_own(s: OpinionSign, e: Expression) -> (r: bool)
    ensures
        r == voices_own_side(s, e),
{
    if s.is_con() {
        e == Expression::VoiceCon
    } else {
        e == Expression::VoicePro
    }
}

/// Sizes of the two camps and how many in each voice their own side.
#[derive(Debug, Clone, Copy, PartialEq, Eq, Structural)]
pub struct CampVoiceCounts {
    /// Agents in the majority camp.
    pub majority_total: usize,
    /// Majority agents voicing their own side.
    pub majority_voicing: usize,
    /// Agents in the minority camp.
    pub minority_total: usize,
    /// Minority agents voicing their own side.
    pub minority_voicing: usize,
}

/// Counts, per camp role, the agents and those that voice their own side (the
/// material of the per-camp willingness to speak and of its log-odds ratio).
pub fn camp_voice_counts(signs: &[OpinionSign], e_pub: &[Expression]) -> (c: CampVoiceCounts)
    requires
        signs@.len() == e_pub@.len(),
    ensures
        ({
            let m = minority_is_con(signs@);
            let n = signs@.len() as int;
            &&& c.majority_total == role_count(signs@, m, Role::Majority, n)
            &&& c.minority_total == role_count(signs@, m, Role::Minority, n)
            &&& c.majority_voicing == role_voicing_count(signs@, e_pub@, m, Role::Majority, n)
            &&& c.minority_voicing == role_voicing_count(signs@, e_pub@, m, Role::Minority, n)
        }),
        c.majority_voicing <= c.majority_total,
        c.minority_voicing <= c.minority_total,
        c.majority_total + c.minority_total <= signs@.len(),
{
    let m = minority_side_is_con(signs);
    let n = signs.len();
    let mut c = CampVoiceCounts {
        majority_total: 0,
        majority_voicing: 0,
        minority_total: 0,
        minority_voicing: 0,
    };
    for i in 0..n
        invariant
            n == signs@.len(),
            n == e_pub@.len(),
            m == minority_is_con(signs@),
            c.majority_total == role_count(signs@, m, Role::Majority, i as int),
            c.minority_total == role_count(signs@, m, Role::Minority, i as int),
            c.majority_voicing == role_voicing_count(signs@, e_pub@, m, Role::Majority, i as int),
            c.minority_voicing == role_voicing_count(signs@, e_pub@, m, Role::Minority, i as int),
            c.majority_voicing <= c.majority_total,
            c.minority_voicing <= c.minority_total,
            c.majority_total + c.minority_total <= i,
    {
        let own = voices_own(signs[i], e_pub[i]);
        match agent_role(signs[i], m) {
            Some(Role::Majority) => {
                c.majority_total = c.majority_total + 1;
                if own {
                    c.majority_voicing = c.majority_voicing + 1;
                }
            },
            Some(Role::Minority) => {
                c.minority_total = c.minority_total + 1;
                if own {
                    c.minority_voicing = c.minority_voicing + 1;
                }
            },
            None => {},
        }
    }
    c
}

/// Numerator and denominator of the hardcore survival rate: among hardcore minority
/// agents, the share that still voices its own side; when there is none, the same
/// share over the whole minority; `(0, 0)` when the minority is empty.
pub open spec fn hardcore_survival_fraction(
    signs: Seq<OpinionSign>,
    e_pub: Seq<Expression>,
    hardcore: Seq<bool>,
) -> (nat, nat) {
    let m = minority_is_con(signs);
    let n = signs.len() as int;
    let hc = hardcore_count(signs, hardcore, m, n);
    let mt = role_count(signs, m, Role::Minority, n);
    if hc > 0 {
        (hardcore_voicing_count(signs, e_pub, hardcore, m, n), hc)
    } else if mt > 0 {
        (role_voicing_count(signs, e_pub, m, Role::Minority, n), mt)
    } else {
        (0, 0)
    }
}

/// Computes [`hardcore_survival_fraction`]; `hardcore[i]` tells whether agent `i`
/// has a low voicing threshold.
pub fn hardcore_survival_counts(
    signs: &[OpinionSign],
    e_pub: &[Expression],
    hardcore: &[bool],
) -> (r: (usize, usize))
    requires
        signs@.len() == e_pub@.len(),
        signs@.len() == hardcore@.len(),
    ensures
        (r.0 as nat, r.1 as nat) == hardcore_survival_fraction(signs@, e_pub@, hardcore@),
        r.0 <= r.1,
{
    let m = minority_side_is_con(signs);
    let n = signs.len();
    let mut hc_total: usize = 0;
    let mut hc_surviving: usize = 0;
    let mut min_total: usize = 0;
    let mut min_surviving: usize = 0;
    for i in 0..n
        invariant
            n == signs@.len(),
            n == e_pub@.len(),
            n == hardcore@.len(),
            m == minority_is_con(signs@),
            hc_total == hardcore_count(signs@, hardcore@, m, i as int),
            hc_surviving == hardcore_voicing_count(signs@, e_pub@, hardcore@, m, i as int),
            min_total == role_count(signs@, m, Role::Minority, i as int),
            min_surviving == role_voicing_count(signs@, e_pub@, m, Role::Minority, i as int),
            hc_surviving <= hc_total <= i,
            min_surviving <= min_total <= i,
    {
        if agent_role(signs[i], m) == Some(Role::Minority) {
            let own = voices_own(signs[i], e_pub[i]);
            min_total = min_total + 1;
            if own {
                min_surviving = min_surviving + 1;
            }
            if hardcore[i] {
                hc_total = hc_total + 1;
                if own {
                    hc_surviving = hc_surviving + 1;
                }
            }
        }
    }
    if hc_total > 0 {
        (hc_surviving, hc_total)
    } else if min_total > 0 {
        (min_surviving, min_total)
    } else {
        (0, 0)
    }
}

/// The two camps partition the agents with a nonzero opinion.
pub proof fn lemma_camps_partition_nonzero(signs: Seq<OpinionSign>, minority_con: bool, k: int)
    requires
        0 <= k <= signs.len(),
    ensures
        role_count(signs, minority_con, Role::Majority, k) + role_count(
            signs,
            minority_con,
            Role::Minority,
            k,
        ) == nonzero_count(signs, k),
    decreases k,
{
    if k > 0 {
        lemma_camps_partition_nonzero(signs, minority_con, k - 1);
    }
}

/// When at least half of the population is pro, the majority camp is exactly the
/// pro camp; otherwise it is exactly the con camp.
pub proof fn lemma_majority_is_the_larger_side(signs: Seq<OpinionSign>, i: int)
    requires
        0 <= i < signs.len(),
    ensures
        role_of(signs[i], minority_is_con(signs)) == Some(Role::Majority) <==> (if minority_is_con(
            signs,
        ) {
            is_pro(signs[i])
        } else {
            is_con(signs[i])
        }),
{
}

/// After a round of decisions, an agent voices its own camp exactly when it decided
/// to speak: nobody who speaks does so for the other side.
pub proof fn lemma_decided_voices_are_own_side(voices: bool, s: OpinionSign)
    ensures
        voices_own_side(s, chosen_expression(voices, s)) == voices,
{
}

/// The opinion sign of a camp's strictly-signed members: pro is `b > 0`, con `b < 0`.
pub open spec fn side_sign(pro: bool) -> OpinionSign {
    if pro {
        OpinionSign::Positive
    } else {
        OpinionSign::Negative
    }
}

/// The voice of a camp's own side.
pub open spec fn side_voice(pro: bool) -> Expression {
    if pro {
        Expression::VoicePro
    } else {
        Expression::VoiceCon
    }
}

/// Each agent's opinion sign with its public expression.
pub open spec fn sign_expression_pairs(
    signs: Seq<OpinionSign>,
    e_pub: Seq<Expression>,
) -> Seq<(OpinionSign, Expression)> {
    Seq::new(signs.len(), |i: int| (signs[i], e_pub[i]))
}

/// Each agent's opinion sign, public expression and hardcore flag.
pub open spec fn agent_triples(
    signs: Seq<OpinionSign>,
    e_pub: Seq<Expression>,
    hardcore: Seq<bool>,
) -> Seq<(OpinionSign, Expression, bool)> {
    Seq::new(signs.len(), |i: int| (signs[i], e_pub[i], hardcore[i]))
}

/// Number of strictly pro agents.
pub open spec fn pro_agents(signs: Seq<OpinionSign>) -> nat {
    signs.filter(|x: OpinionSign| x == OpinionSign::Positive).len()
}

/// The true-support numerator counts exactly the agents with `b > 0`.
pub proof fn lemma_count_pro_is_filter(signs: Seq<OpinionSign>)
    ensures
        count_pro(signs) == pro_agents(signs),
    decreases signs.len(),
{
    reveal(Seq::filter);
    if signs.len() > 0 {
        lemma_count_pro_is_filter(signs.drop_last());
    }
}

proof fn lemma_role_counts_by_side(
    signs: Seq<OpinionSign>,
    e_pub: Seq<Expression>,
    m: bool,
    k: int,
)
    requires
        signs.len() == e_pub.len(),
        0 <= k <= signs.len(),
    ensures
        ({
            let a = sign_expression_pairs(signs, e_pub).take(k);
            &&& role_count(signs, m, Role::Majority, k) == a.filter(
                |p: (OpinionSign, Expression)| p.0 == side_sign(m),
            ).len()
            &&& role_voicing_count(signs, e_pub, m, Role::Majority, k) == a.filter(
                |p: (OpinionSign, Expression)| p.0 == side_sign(m) && p.1 == side_voice(m),
            ).len()
            &&& role_count(signs, m, Role::Minority, k) == a.filter(
                |p: (OpinionSign, Expression)| p.0 == side_sign(!m),
            ).len()
            &&& role_voicing_count(signs, e_pub, m, Role::Minority, k) == a.filter(
                |p: (OpinionSign, Expression)| p.0 == side_sign(!m) && p.1 == side_voice(!m),
            ).len()
        }),
    decreases k,
{
    reveal(Seq::filter);
    let all = sign_expression_pairs(signs, e_pub);
    if k > 0 {
        lemma_role_counts_by_side(signs, e_pub, m, k - 1);
        assert(all.take(k).drop_last() =~= all.take(k - 1));
        assert(all.take(k).last() == (signs[k - 1], e_pub[k - 1]));
    } else {
        assert(all.take(0) =~= Seq::<(OpinionSign, Expression)>::empty());
    }
}

/// The camps and their voices, counted directly: when at least half of the agents
/// are pro, the majority is the agents with `b > 0` and its voices are their pro
/// voices, the minority is the agents with `b < 0` and its voices are their con
/// voices; otherwise the other way round.  Every voice of a member for its own side
/// counts, in either camp.
pub proof fn lemma_camp_counts_by_side(signs: Seq<OpinionSign>, e_pub: Seq<Expression>)
    requires
        signs.len() == e_pub.len(),
    ensures
        ({
            let n = signs.len() as int;
            let a = sign_expression_pairs(signs, e_pub);
            let pro_majority = 2 * pro_agents(signs) >= n;
            let m = minority_is_con(signs);
            &&& role_count(signs, m, Role::Majority, n) == a.filter(
                |p: (OpinionSign, Expression)| p.0 == side_sign(pro_majority),
            ).len()
            &&& role_voicing_count(signs, e_pub, m, Role::Majority, n) == a.filter(
                |p: (OpinionSign, Expression)|
                    p.0 == side_sign(pro_majority) && p.1 == side_voice(pro_majority),
            ).len()
            &&& role_count(signs, m, Role::Minority, n) == a.filter(
                |p: (OpinionSign, Expression)| p.0 == side_sign(!pro_majority),
            ).len()
            &&& role_voicing_count(signs, e_pub, m, Role::Minority, n) == a.filter(
                |p: (OpinionSign, Expression)|
                    p.0 == side_sign(!pro_majority) && p.1 == side_voice(!pro_majority),
            ).len()
        }),
{
    reveal(Seq::filter);
    let n = signs.len() as int;
    let a = sign_expression_pairs(signs, e_pub);
    lemma_count_pro_is_filter(signs);
    assert(a.take(n) =~= a);
    if n == 0 {
        assert(a =~= Seq::<(OpinionSign, Expression)>::empty());
        lemma_role_counts_by_side(signs, e_pub, minority_is_con(signs), 0);
    } else {
        lemma_role_counts_by_side(signs, e_pub, minority_is_con(signs), n);
    }
}

proof fn lemma_hardcore_counts_by_side(
    signs: Seq<OpinionSign>,
    e_pub: Seq<Expression>,
    hardcore: Seq<bool>,
    m: bool,
    k: int,
)
    requires
        signs.len() == e_pub.len(),
        signs.len() == hardcore.len(),
        0 <= k <= signs.len(),
    ensures
        ({
            let t = agent_triples(signs, e_pub, hardcore).take(k);
            &&& hardcore_count(signs, hardcore, m, k) == t.filter(
                |x: (OpinionSign, Expression, bool)| x.0 == side_sign(!m) && x.2,
            ).len()
            &&& hardcore_voicing_count(signs, e_pub, hardcore, m, k) == t.filter(
                |x: (OpinionSign, Expression, bool)|
                    x.0 == side_sign(!m) && x.2 && x.1 == side_voice(!m),
            ).len()
            &&& role_count(signs, m, Role::Minority, k) == t.filter(
                |x: (OpinionSign, Expression, bool)| x.0 == side_sign(!m),
            ).len()
            &&& role_voicing_count(signs, e_pub, m, Role::Minority, k) == t.filter(
                |x: (OpinionSign, Expression, bool)| x.0 == side_sign(!m) && x.1 == side_voice(!m),
            ).len()
        }),
    decreases k,
{
    reveal(Seq::filter);
    let all = agent_triples(signs, e_pub, hardcore);
    if k > 0 {
        lemma_hardcore_counts_by_side(signs, e_pub, hardcore, m, k - 1);
        assert(all.take(k).drop_last() =~= all.take(k - 1));
        assert(all.take(k).last() == (signs[k - 1], e_pub[k - 1], hardcore[k - 1]));
    } else {
        assert(all.take(0) =~= Seq::<(OpinionSign, Expression, bool)>::empty());
    }
}

/// Hardcore survival, counted directly: the minority is the con camp (`b < 0`) when
/// at least half of the agents are pro, and the pro camp (`b > 0`) otherwise; only
/// hardcore agents of that minority are counted, with those that voice their own
/// side; without any, the whole minority is counted; without a minority, `(0, 0)`.
pub proof fn lemma_hardcore_survival_by_side(
    signs: Seq<OpinionSign>,
    e_pub: Seq<Expression>,
    hardcore: Seq<bool>,
)
    requires
        signs.len() == e_pub.len(),
        signs.len() == hardcore.len(),
    ensures
        ({
            let t = agent_triples(signs, e_pub, hardcore);
            let minority_pro = 2 * pro_agents(signs) < signs.len();
            let hc = t.filter(
                |x: (OpinionSign, Expression, bool)| x.0 == side_sign(minority_pro) && x.2,
            ).len();
            let hc_voicing = t.filter(
                |x: (OpinionSign, Expression, bool)|
                    x.0 == side_sign(minority_pro) && x.2 && x.1 == side_voice(minority_pro),
            ).len();
            let members = t.filter(
                |x: (OpinionSign, Expression, bool)| x.0 == side_sign(minority_pro),
            ).len();
            let members_voicing = t.filter(
                |x: (OpinionSign, Expression, bool)|
                    x.0 == side_sign(minority_pro) && x.1 == side_voice(minority_pro),
            ).len();
            hardcore_survival_fraction(signs, e_pub, hardcore) == if hc > 0 {
                (hc_voicing, hc)
            } else if members > 0 {
                (members_voicing, members)
            } else {
                (0nat, 0nat)
            }
        }),
{
    reveal(Seq::filter);
    let n = signs.len() as int;
    let t = agent_triples(signs, e_pub, hardcore);
    lemma_count_pro_is_filter(signs);
    assert(t.take(n) =~= t);
    if n == 0 {
        assert(t =~= Seq::<(OpinionSign, Expression, bool)>::empty());
        lemma_hardcore_counts_by_side(signs, e_pub, hardcore, minority_is_con(signs), 0);
    } else {
        lemma_hardcore_counts_by_side(signs, e_pub, hardcore, minority_is_con(signs), n);
    }
}

} // verus!
