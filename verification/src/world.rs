//! Public expression and private opinion of an agent, and the rules that tie them.
//!
//! An agent's private opinion `b_i` is a real number; every rule of the model that
//! reads it reads only its sign, through one of three comparisons (`b > 0`, `b >= 0`,
//! `signum(b) >= 0`).  These disagree only at the two zeros, so the sign is kept as
//! one of four values that answer all three comparisons exactly.
use vstd::prelude::*;

verus! {

/// What an agent shows in public: voice for the pro side, voice for the con side,
/// or silence.  Independent of the private opinion by design.
#[derive(Debug, Clone, Copy, PartialEq, Eq, Structural)]
pub enum Expression {
    /// Speaks up for the pro side.
    VoicePro,
    /// Speaks up for the con side.
    VoiceCon,
    /// Stays silent.
    Silence,
}

/// Integer code of an expression: `+1` pro, `-1` con, `0` silence.
pub open spec fn expression_code(e: Expression) -> int {
    match e {
        Expression::VoicePro => 1,
        Expression::VoiceCon => -1,
        Expression::Silence => 0,
    }
}

/// Whether an expression is a voiced one (either side).
pub open spec fn voicing(e: Expression) -> bool {
    e != Expression::Silence
}

impl Expression {
    /// Integer code used in tables and plots (`+1` pro voice, `-1` con voice, `0` silence).
    pub fn code(self) -> (c: i8)
        ensures
            c == expression_code(self),
    {
        match self {
            Expression::VoicePro => 1,
            Expression::VoiceCon => -1,
            Expression::Silence => 0,
        }
    }

    /// Whether the agent speaks (for either side).
    pub fn is_voicing(self) -> (b: bool)
        ensures
            b == voicing(self),
    {
        !matches!(self, Expression::Silence)
    }
}

/// The sign of a private opinion `b_i`: strictly positive, `+0`, `-0`, or strictly
/// negative.
#[derive(Debug, Clone, Copy, PartialEq, Eq, Structural)]
pub enum OpinionSign {
    /// `b > 0`.
    Positive,
    /// `b` is positive zero.
    PositiveZero,
    /// `b` is negative zero.
    NegativeZero,
    /// `b < 0`.
    Negative,
}

/// `b > 0`: the agent belongs to the pro camp.
pub open spec fn is_pro(s: OpinionSign) -> bool {
    s == OpinionSign::Positive
}

/// `b < 0`: the agent belongs to the con camp.
pub open spec fn is_con(s: OpinionSign) -> bool {
    s == OpinionSign::Negative
}

/// `b >= 0` (true at both zeros): when the agent speaks, it speaks for the pro side.
pub open spec fn speaks_pro(s: OpinionSign) -> bool {
    s != OpinionSign::Negative
}

/// `signum(b) >= 0` (true at `+0`, false at `-0`): the side from which the agent reads
/// the climate of opinion.
pub open spec fn reads_climate_as_pro(s: OpinionSign) -> bool {
    s == OpinionSign::Positive || s == OpinionSign::PositiveZero
}

/// The expression an agent uses when it decides to speak: its private side, never
/// the other one.
pub open spec fn voiced_expression(s: OpinionSign) -> Expression {
    if speaks_pro(s) {
        Expression::VoicePro
    } else {
        Expression::VoiceCon
    }
}

/// The expression of an agent that has decided whether to speak.
pub open spec fn chosen_expression(voices: bool, s: OpinionSign) -> Expression {
    if voices {
        voiced_expression(s)
    } else {
        Expression::Silence
    }
}

impl OpinionSign {
    /// `b > 0`.
    pub fn is_pro(self) -> (r: bool)
        ensures
            r == is_pro(self),
    {
        matches!(self, OpinionSign::Positive)
    }

    /// `b < 0`.
    pub fn is_con(self) -> (r: bool)
        ensures
            r == is_con(self),
    {
        matches!(self, OpinionSign::Negative)
    }

    /// `b >= 0`.
    pub fn speaks_pro(self) -> (r: bool)
        ensures
            r == speaks_pro(self),
    {
        !matches!(self, OpinionSign::Negative)
    }

    /// `signum(b) >= 0`.
    pub fn reads_climate_as_pro(self) -> (r: bool)
        ensures
            r == reads_climate_as_pro(self),
    {
        matches!(self, OpinionSign::Positive | OpinionSign::PositiveZero)
    }

    /// The expression used when this agent speaks (its own side).
    pub fn voiced_expression(self) -> (e: Expression)
        ensures
            e == voiced_expression(self),
    {
        if self.speaks_pro() {
            Expression::VoicePro
        } else {
            Expression::VoiceCon
        }
    }
}

/// Number of entries of `s` equal to `x`.
pub open spec fn count_expression(s: Seq<Expression>, x: Expression) -> nat
    decreases s.len(),
{
    if s.len() == 0 {
        0
    } else {
        count_expression(s.drop_last(), x) + if s.last() == x {
            1nat
        } else {
            0nat
        }
    }
}

/// Number of voiced entries of `s`.
pub open spec fn count_voicing(s: Seq<Expression>) -> nat {
    count_expression(s, Expression::VoicePro) + count_expression(s, Expression::VoiceCon)
}

/// Number of opinions of `s` that are strictly positive.
pub open spec fn count_pro(s: Seq<OpinionSign>) -> nat
    decreases s.len(),
{
    if s.len() == 0 {
        0
    } else {
        count_pro(s.drop_last()) + if is_pro(s.last()) {
            1nat
        } else {
            0nat
        }
    }
}

/// The three counts always cover the sequence.
pub proof fn lemma_counts_cover(s: Seq<Expression>)
    ensures
        count_expression(s, Expression::VoicePro) + count_expression(s, Expression::VoiceCon)
            + count_expression(s, Expression::Silence) == s.len(),
    decreases s.len(),
{
    if s.len() > 0 {
        lemma_counts_cover(s.drop_last());
    }
}

/// Tally of the public expressions of a population.
#[derive(Debug, Clone, Copy, PartialEq, Eq, Structural)]
pub struct ExpressionTally {
    /// Agents voicing the pro side.
    pub pro: usize,
    /// Agents voicing the con side.
    pub con: usize,
    /// Silent agents.
    pub silence: usize,
}

impl ExpressionTally {
    /// Agents that speak, for either side.
    pub fn voicing(&self) -> (v: usize)
        requires
            self.pro + self.con <= usize::MAX,
        ensures
            v == self.pro + self.con,
    {
        self.pro + self.con
    }
}

/// Counts each kind of public expression in `e_pub`.
pub fn tally_expressions(e_pub: &[Expression]) -> (t: ExpressionTally)
    ensures
        t.pro == count_expression(e_pub@, Expression::VoicePro),
        t.con == count_expression(e_pub@, Expression::VoiceCon),
        t.silence == count_expression(e_pub@, Expression::Silence),
        t.pro + t.con + t.silence == e_pub@.len(),
{
    let mut t = ExpressionTally { pro: 0, con: 0, silence: 0 };
    let n = e_pub.len();
    for i in 0..n
        invariant
            n == e_pub@.len(),
            t.pro == count_expression(e_pub@.subrange(0, i as int), Expression::VoicePro),
            t.con == count_expression(e_pub@.subrange(0, i as int), Expression::VoiceCon),
            t.silence == count_expression(e_pub@.subrange(0, i as int), Expression::Silence),
            t.pro + t.con + t.silence == i,
    {
        assert(e_pub@.subrange(0, i + 1).drop_last() == e_pub@.subrange(0, i as int));
        match e_pub[i] {
            Expression::VoicePro => t.pro = t.pro + 1,
            Expression::VoiceCon => t.con = t.con + 1,
            Expression::Silence => t.silence = t.silence + 1,
        }
    }
    assert(e_pub@.subrange(0, n as int) == e_pub@);
    t
}

/// Numerator and denominator of the apparent support `q̂ = #{VoicePro} / #{voicing}`
/// of public discourse, silent agents left out; `None` when nobody speaks.
pub fn apparent_support_counts(e_pub: &[Expression]) -> (r: Option<(usize, usize)>)
    ensures
        r is None <==> count_voicing(e_pub@) == 0,
        r matches Some((pro, voicing)) ==> pro == count_expression(e_pub@, Expression::VoicePro)
            && voicing == count_voicing(e_pub@) && pro <= voicing,
{
    let t = tally_expressions(e_pub);
    assert(t.pro + t.con <= e_pub.len());
    let v = t.voicing();
    if v == 0 {
        None
    } else {
        Some((t.pro, v))
    }
}

/// Number of agents whose private opinion is strictly positive (the numerator of the
/// true support `q = #{b_i > 0} / n`).
pub fn count_pro_opinions(signs: &[OpinionSign]) -> (c: usize)
    ensures
        c == count_pro(signs@),
        c <= signs@.len(),
{
    let mut c: usize = 0;
    let n = signs.len();
    for i in 0..n
        invariant
            n == signs@.len(),
            c == count_pro(signs@.subrange(0, i as int)),
            c <= i,
    {
        assert(signs@.subrange(0, i + 1).drop_last() == signs@.subrange(0, i as int));
        if signs[i].is_pro() {
            c = c + 1;
        }
    }
    assert(signs@.subrange(0, n as int) == signs@);
    c
}

/// Whether agent `i` currently speaks (the "active" state used by threshold contagion).
pub fn is_active(e_pub: &[Expression], i: usize) -> (b: bool)
    requires
        i < e_pub@.len(),
    ensures
        b == voicing(e_pub@[i as int]),
{
    e_pub[i].is_voicing()
}

/// Public expressions after agent `i`, whose private opinion has sign `sign`, is set
/// active (made to speak, for its own private side) or inactive (made silent).
pub open spec fn after_activation(
    e_pub: Seq<Expression>,
    i: int,
    sign: OpinionSign,
    active: bool,
) -> Seq<Expression> {
    e_pub.update(i, chosen_expression(active, sign))
}

/// Sets agent `i`, whose private opinion has sign `sign`, active (speaking for the
/// side of its private opinion) or inactive (silent).
pub fn set_active(e_pub: &mut Vec<Expression>, i: usize, sign: OpinionSign, active: bool)
    requires
        i < old(e_pub)@.len(),
    ensures
        final(e_pub)@ == after_activation(old(e_pub)@, i as int, sign, active),
{
    if active {
        e_pub.set(i, sign.voiced_expression());
    } else {
        e_pub.set(i, Expression::Silence);
    }
}

/// Synchronous write-back of a round of speak/stay-silent decisions: agent `i` voices
/// its own private side when `voices[i]`, and is silent otherwise.
pub fn decide_expressions(voices: &[bool], signs: &[OpinionSign]) -> (e: Vec<Expression>)
    requires
        voices@.len() == signs@.len(),
    ensures
        e@.len() == signs@.len(),
        forall|i: int|
            0 <= i < e@.len() ==> #[trigger] e@[i] == chosen_expression(voices@[i], signs@[i]),
{
    let n = signs.len();
    let mut e: Vec<Expression> = Vec::new();
    for i in 0..n
        invariant
            n == signs@.len(),
            n == voices@.len(),
            e@.len() == i,
            forall|k: int| 0 <= k < i ==> #[trigger] e@[k] == chosen_expression(voices@[k], signs@[k]),
    {
        if voices[i] {
            e.push(signs[i].voiced_expression());
        } else {
            e.push(Expression::Silence);
        }
    }
    e
}

/// An expression voices exactly when its code is nonzero.
pub proof fn lemma_voicing_iff_nonzero_code(e: Expression)
    ensures
        voicing(e) <==> expression_code(e) != 0,
{
}

/// Reading back an agent after setting it gives what was set, and no other agent
/// changes.
pub proof fn lemma_activation_reads_back(
    e_pub: Seq<Expression>,
    i: int,
    sign: OpinionSign,
    active: bool,
)
    requires
        0 <= i < e_pub.len(),
    ensures
        voicing(after_activation(e_pub, i, sign, active)[i]) == active,
        active ==> after_activation(e_pub, i, sign, active)[i] == voiced_expression(sign),
        after_activation(e_pub, i, sign, active).len() == e_pub.len(),
        forall|j: int|
            0 <= j < e_pub.len() && j != i ==> #[trigger] after_activation(e_pub, i, sign, active)[j]
                == e_pub[j],
{
}

/// No agent ever speaks against its private opinion: whatever an agent voices
/// agrees with the sign of `b_i` (pro only when `b_i >= 0`, con only when `b_i < 0`).
pub proof fn lemma_no_voice_against_own_opinion(voices: bool, s: OpinionSign)
    ensures
        chosen_expression(voices, s) == Expression::VoicePro ==> speaks_pro(s),
        chosen_expression(voices, s) == Expression::VoiceCon ==> !speaks_pro(s),
        voicing(chosen_expression(voices, s)) == voices,
{
}

/// Silent agents do not count in the apparent support: adding a silent agent
/// anywhere leaves both the pro voices and the speakers unchanged.
pub proof fn lemma_silence_leaves_apparent_support(e_pub: Seq<Expression>, k: int, x: Expression)
    requires
        0 <= k <= e_pub.len(),
    ensures
        count_expression(e_pub.insert(k, Expression::Silence), x) == count_expression(e_pub, x) + if x
            == Expression::Silence {
            1nat
        } else {
            0nat
        },
        count_voicing(e_pub.insert(k, Expression::Silence)) == count_voicing(e_pub),
    decreases e_pub.len(),
{
    let ins = e_pub.insert(k, Expression::Silence);
    if k == e_pub.len() {
        assert(ins.drop_last() =~= e_pub);
    } else {
        assert(ins.drop_last() =~= e_pub.drop_last().insert(k, Expression::Silence));
        lemma_silence_leaves_apparent_support(e_pub.drop_last(), k, x);
        lemma_silence_leaves_apparent_support(e_pub.drop_last(), k, Expression::VoicePro);
        lemma_silence_leaves_apparent_support(e_pub.drop_last(), k, Expression::VoiceCon);
    }
}

/// Each tally counts exactly the agents showing that expression.
pub proof fn lemma_count_expression_is_filter(e_pub: Seq<Expression>, x: Expression)
    ensures
        count_expression(e_pub, x) == e_pub.filter(|y: Expression| y == x).len(),
    decreases e_pub.len(),
{
    reveal(Seq::filter);
    if e_pub.len() > 0 {
        lemma_count_expression_is_filter(e_pub.drop_last(), x);
    }
}

} // verus!
