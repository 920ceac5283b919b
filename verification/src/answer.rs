//! Reading a language model's introspective answer: whether the agent says it will
//! speak or stay silent.
use vstd::prelude::*;
use crate::text::{all_ascii, ascii_lowercase, ascii_upper_char, ascii_lower_char, ascii_uppercase, chars_of, occurs_at, to_uppercase, uppercase_of};

verus! {

/// The decision read off an answer.
#[derive(Debug, Clone, Copy, PartialEq, Eq, Structural)]
pub enum VoiceAnswer {
    /// The answer ends up at `SPEAK`.
    Speak,
    /// The answer ends up at `SILENT`.
    Silent,
    /// Neither word appears.
    Unclear,
}

/// The last start, no later than `i`, at which `p` occurs in `s`.
pub open spec fn last_occurrence_upto(s: Seq<char>, p: Seq<char>, i: int) -> Option<int>
    decreases i + 1,
{
    if i < 0 {
        None
    } else if occurs_at(s, p, i) {
        Some(i)
    } else {
        last_occurrence_upto(s, p, i - 1)
    }
}

/// The last start at which `p` occurs in `s`.
pub open spec fn last_occurrence(s: Seq<char>, p: Seq<char>) -> Option<int> {
    last_occurrence_upto(s, p, s.len() as int)
}

/// The decision in an upper-cased answer: the later of the last `SPEAK` and the last
/// `SILENT` wins; with only one of them present, that one; with neither, unclear.
pub open spec fn answer_in(u: Seq<char>) -> VoiceAnswer {
    match (last_occurrence(u, "SPEAK"@), last_occurrence(u, "SILENT"@)) {
        (Some(s), Some(z)) => if s > z {
            VoiceAnswer::Speak
        } else {
            VoiceAnswer::Silent
        },
        (Some(_), None) => VoiceAnswer::Speak,
        (None, Some(_)) => VoiceAnswer::Silent,
        (None, None) => VoiceAnswer::Unclear,
    }
}

/// Probability of speaking, in percent, that an answer stands for.
pub open spec fn answer_percent(a: VoiceAnswer) -> int {
    match a {
        VoiceAnswer::Speak => 95,
        VoiceAnswer::Silent => 5,
        VoiceAnswer::Unclear => 50,
    }
}

impl VoiceAnswer {
    /// Probability of speaking, in percent: 95 for `SPEAK`, 5 for `SILENT`, 50 (a
    /// neutral answer) when neither word is found.
    pub fn voice_probability_percent(self) -> (p: u8)
        ensures
            p == answer_percent(self),
    {
        match self {
            VoiceAnswer::Speak => 95,
            VoiceAnswer::Silent => 5,
            VoiceAnswer::Unclear => 50,
        }
    }
}

fn occurs_here(s: &[char], p: &[char], i: usize) -> (r: bool)
    requires
        i <= s@.len(),
    ensures
        r == occurs_at(s@, p@, i as int),
{
    if p.len() > s.len() - i {
        return false;
    }
    let m = p.len();
    let n = s.len();
    for k in 0..m
        invariant
            m == p@.len(),
            n == s@.len(),
            i + m <= s@.len(),
            forall|j: int| 0 <= j < k ==> s@[i + j] == p@[j],
    {
        assert(i + k < s@.len());
        if s[i + k] != p[k] {
            assert(s@.subrange(i as int, i + m)[k as int] != p@[k as int]);
            return false;
        }
    }
    assert(s@.subrange(i as int, i + m) =~= p@);
    true
}

fn last_occurrence_of(s: &[char], p: &[char]) -> (r: Option<usize>)
    ensures
        r matches Some(i) ==> last_occurrence(s@, p@) == Some(i as int),
        r is None ==> last_occurrence(s@, p@) is None,
{
    let mut i = s.len();
    loop
        invariant
            i <= s@.len(),
            last_occurrence(s@, p@) == last_occurrence_upto(s@, p@, i as int),
        decreases i,
    {
        if occurs_here(s, p, i) {
            return Some(i);
        }
        if i == 0 {
            assert(last_occurrence_upto(s@, p@, -1) is None);
            return None;
        }
        i = i - 1;
    }
}

/// Reads the decision in an answer that is already upper-cased.
pub fn answer_in_uppercased(upper: &str) -> (a: VoiceAnswer)
    ensures
        a == answer_in(upper@),
{
    let cs = chars_of(upper);
    let speak_word = chars_of("SPEAK");
    let silent_word = chars_of("SILENT");
    let speak = last_occurrence_of(cs.as_slice(), speak_word.as_slice());
    let silent = last_occurrence_of(cs.as_slice(), silent_word.as_slice());
    match (speak, silent) {
        (Some(s), Some(z)) => if s > z {
            VoiceAnswer::Speak
        } else {
            VoiceAnswer::Silent
        },
        (Some(_), None) => VoiceAnswer::Speak,
        (None, Some(_)) => VoiceAnswer::Silent,
        (None, None) => VoiceAnswer::Unclear,
    }
}

/// Reads the decision in a language model's answer, case-insensitively: the answer
/// is upper-cased first, then the later of the last `SPEAK` and the last `SILENT`
/// decides.
pub fn parse_voice_answer(text: &str) -> (a: VoiceAnswer)
    ensures
        a == answer_in(uppercase_of(text@)),
        all_ascii(text@) ==> a == answer_in(ascii_uppercase(text@)),
{
    let upper = to_uppercase(text);
    answer_in_uppercased(upper.as_str())
}

/// The found start is an occurrence and no occurrence starts later.
pub proof fn lemma_last_occurrence_is_last(s: Seq<char>, p: Seq<char>, i: int)
    ensures
        last_occurrence_upto(s, p, i) matches Some(k) ==> occurs_at(s, p, k) && k <= i && forall|
            j: int,
        | k < j <= i ==> !occurs_at(s, p, j),
        last_occurrence_upto(s, p, i) is None ==> forall|j: int| j <= i ==> !occurs_at(s, p, j),
    decreases i + 1,
{
    if i >= 0 && !occurs_at(s, p, i) {
        lemma_last_occurrence_is_last(s, p, i - 1);
    }
}

/// Whichever word appears last in the answer decides it: a `SPEAK` after every
/// `SILENT` means speak, a `SILENT` after every `SPEAK` means silent.
pub proof fn lemma_last_word_wins(u: Seq<char>, i: int)
    requires
        occurs_at(u, "SPEAK"@, i) || occurs_at(u, "SILENT"@, i),
        forall|j: int| j > i ==> !occurs_at(u, "SPEAK"@, j) && !occurs_at(u, "SILENT"@, j),
    ensures
        occurs_at(u, "SPEAK"@, i) ==> answer_in(u) == VoiceAnswer::Speak,
        occurs_at(u, "SILENT"@, i) ==> answer_in(u) == VoiceAnswer::Silent,
{
    reveal_strlit("SPEAK");
    reveal_strlit("SILENT");
    let n = u.len() as int;
    lemma_last_occurrence_is_last(u, "SPEAK"@, n);
    lemma_last_occurrence_is_last(u, "SILENT"@, n);
    if occurs_at(u, "SPEAK"@, i) && occurs_at(u, "SILENT"@, i) {
        assert(u.subrange(i, i + 5)[1] == 'P');
        assert(u.subrange(i, i + 6)[1] == 'I');
    }
}

/// Letter case does not matter in an answer: an answer and its lower-cased form
/// are read alike.
pub proof fn lemma_answer_ignores_ascii_case(t: Seq<char>)
    ensures
        answer_in(ascii_uppercase(ascii_lowercase(t))) == answer_in(ascii_uppercase(t)),
{
    assert forall|i: int| 0 <= i < t.len() implies ascii_upper_char(ascii_lower_char(t[i]))
        == ascii_upper_char(t[i]) by {
        let c = t[i];
        if 'A' <= c <= 'Z' {
            assert(((c as int) + 32) as char as int == c as int + 32);
        }
    }
    assert(ascii_uppercase(ascii_lowercase(t)) =~= ascii_uppercase(t));
}

} // verus!
