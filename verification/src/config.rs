//! The run's discrete choices: network model and voice-decision mode, with their
//! command-line names.
use vstd::prelude::*;
use crate::text::{
    all_ascii, ascii_lowercase, lowercase_of, text_equals, to_lowercase, trim, trimmed,
};

verus! {

/// Network generator.
#[derive(Debug, Clone, Copy, PartialEq, Eq, Structural)]
pub enum NetworkModel {
    /// Watts--Strogatz small world (the default).
    WattsStrogatz,
    /// Erdős--Rényi random graph.
    ErdosRenyi,
    /// Barabási--Albert scale-free graph.
    BarabasiAlbert,
}

/// How agents decide whether to speak.
#[derive(Debug, Clone, Copy, PartialEq, Eq, Structural)]
pub enum DecisionMode {
    /// Rule-based logistic decision (the default; no language model).
    Rule,
    /// Introspection by a language model.
    Llm,
}

/// Canonical name of a network model.
pub open spec fn network_model_label(m: NetworkModel) -> Seq<char> {
    match m {
        NetworkModel::WattsStrogatz => "watts-strogatz"@,
        NetworkModel::ErdosRenyi => "erdos-renyi"@,
        NetworkModel::BarabasiAlbert => "barabasi-albert"@,
    }
}

/// Canonical name of a decision mode.
pub open spec fn decision_mode_label(m: DecisionMode) -> Seq<char> {
    match m {
        DecisionMode::Rule => "rule"@,
        DecisionMode::Llm => "llm"@,
    }
}

/// The network model a (trimmed, lower-cased) word names, with its aliases.
pub open spec fn network_model_named(w: Seq<char>) -> Option<NetworkModel> {
    if w == "watts-strogatz"@ || w == "ws"@ || w == "small-world"@ {
        Some(NetworkModel::WattsStrogatz)
    } else if w == "erdos-renyi"@ || w == "er"@ || w == "random"@ {
        Some(NetworkModel::ErdosRenyi)
    } else if w == "barabasi-albert"@ || w == "ba"@ || w == "scale-free"@ {
        Some(NetworkModel::BarabasiAlbert)
    } else {
        None
    }
}

/// The decision mode a (trimmed, lower-cased) word names, with its aliases.
pub open spec fn decision_mode_named(w: Seq<char>) -> Option<DecisionMode> {
    if w == "rule"@ || w == "logit"@ || w == "logistic"@ {
        Some(DecisionMode::Rule)
    } else if w == "llm"@ || w == "introspect"@ {
        Some(DecisionMode::Llm)
    } else {
        None
    }
}

/// The error text for an unknown network model word.
pub open spec fn unknown_network_model_message(w: Seq<char>) -> Seq<char> {
    "未知の網モデル: '"@ + w + "' (watts-strogatz / erdos-renyi / barabasi-albert)"@
}

/// The error text for an unknown decision mode word.
pub open spec fn unknown_decision_mode_message(w: Seq<char>) -> Seq<char> {
    "未知の決定モード: '"@ + w + "' (rule / llm)"@
}

impl NetworkModel {
    /// Canonical command-line name.
    pub fn label(self) -> (s: &'static str)
        ensures
            s@ == network_model_label(self),
    {
        match self {
            NetworkModel::WattsStrogatz => "watts-strogatz",
            NetworkModel::ErdosRenyi => "erdos-renyi",
            NetworkModel::BarabasiAlbert => "barabasi-albert",
        }
    }
}

impl DecisionMode {
    /// Canonical command-line name.
    pub fn label(self) -> (s: &'static str)
        ensures
            s@ == decision_mode_label(self),
    {
        match self {
            DecisionMode::Rule => "rule",
            DecisionMode::Llm => "llm",
        }
    }
}

/// The network model named by `word` exactly (no trimming or case folding); the
/// error text names the word.
pub fn network_model_from_word(word: &str) -> (r: Result<NetworkModel, String>)
    ensures
        r matches Ok(m) ==> network_model_named(word@) == Some(m),
        r matches Err(e) ==> network_model_named(word@) is None && e@
            == unknown_network_model_message(word@),
{
    if text_equals(word, "watts-strogatz") || text_equals(word, "ws") || text_equals(
        word,
        "small-world",
    ) {
        Ok(NetworkModel::WattsStrogatz)
    } else if text_equals(word, "erdos-renyi") || text_equals(word, "er") || text_equals(
        word,
        "random",
    ) {
        Ok(NetworkModel::ErdosRenyi)
    } else if text_equals(word, "barabasi-albert") || text_equals(word, "ba") || text_equals(
        word,
        "scale-free",
    ) {
        Ok(NetworkModel::BarabasiAlbert)
    } else {
        let mut msg = String::from_str("未知の網モデル: '");
        msg.append(word);
        msg.append("' (watts-strogatz / erdos-renyi / barabasi-albert)");
        Err(msg)
    }
}

/// The decision mode named by `word` exactly (no trimming or case folding); the
/// error text names the word.
pub fn decision_mode_from_word(word: &str) -> (r: Result<DecisionMode, String>)
    ensures
        r matches Ok(m) ==> decision_mode_named(word@) == Some(m),
        r matches Err(e) ==> decision_mode_named(word@) is None && e@
            == unknown_decision_mode_message(word@),
{
    if text_equals(word, "rule") || text_equals(word, "logit") || text_equals(word, "logistic") {
        Ok(DecisionMode::Rule)
    } else if text_equals(word, "llm") || text_equals(word, "introspect") {
        Ok(DecisionMode::Llm)
    } else {
        let mut msg = String::from_str("未知の決定モード: '");
        msg.append(word);
        msg.append("' (rule / llm)");
        Err(msg)
    }
}

/// Parses a network model name: surrounding white space is ignored and case does
/// not matter.
pub fn parse_network_model(s: &str) -> (r: Result<NetworkModel, String>)
    ensures
        ({
            let w = lowercase_of(trimmed(s@));
            &&& r matches Ok(m) ==> network_model_named(w) == Some(m)
            &&& r matches Err(e) ==> network_model_named(w) is None && e@
                == unknown_network_model_message(w)
        }),
        all_ascii(trimmed(s@)) ==> lowercase_of(trimmed(s@)) == ascii_lowercase(trimmed(s@)),
        forall|m: NetworkModel|
            #[trigger] network_model_label(m) == s@ ==> (r matches Ok(k) && k == m),
{
    let t = trim(s);
    let lower = to_lowercase(t);
    let r = network_model_from_word(lower.as_str());
    proof {
        assert forall|m: NetworkModel| #[trigger] network_model_label(m) == s@ implies (r matches Ok(
            k,
        ) && k == m) by {
            lemma_network_model_label_canonical(m);
            lemma_network_model_label_round_trip(m, m);
        }
    }
    r
}

/// Parses a decision mode name: surrounding white space is ignored and case does
/// not matter.
pub fn parse_decision_mode(s: &str) -> (r: Result<DecisionMode, String>)
    ensures
        ({
            let w = lowercase_of(trimmed(s@));
            &&& r matches Ok(m) ==> decision_mode_named(w) == Some(m)
            &&& r matches Err(e) ==> decision_mode_named(w) is None && e@
                == unknown_decision_mode_message(w)
        }),
        all_ascii(trimmed(s@)) ==> lowercase_of(trimmed(s@)) == ascii_lowercase(trimmed(s@)),
        forall|m: DecisionMode|
            #[trigger] decision_mode_label(m) == s@ ==> (r matches Ok(k) && k == m),
{
    let t = trim(s);
    let lower = to_lowercase(t);
    let r = decision_mode_from_word(lower.as_str());
    proof {
        assert forall|m: DecisionMode| #[trigger] decision_mode_label(m) == s@ implies (r matches Ok(
            k,
        ) && k == m) by {
            lemma_decision_mode_label_canonical(m);
            lemma_decision_mode_label_round_trip(m, m);
        }
    }
    r
}

/// The canonical name of every network model reads back as that model, and no two
/// models share a name.
pub proof fn lemma_network_model_label_round_trip(m: NetworkModel, k: NetworkModel)
    ensures
        network_model_named(network_model_label(m)) == Some(m),
        trimmed(network_model_label(m)) == network_model_label(m),
        network_model_label(m) == network_model_label(k) ==> m == k,
{
    reveal_strlit("watts-strogatz");
    reveal_strlit("ws");
    reveal_strlit("small-world");
    reveal_strlit("erdos-renyi");
    reveal_strlit("er");
    reveal_strlit("random");
    reveal_strlit("barabasi-albert");
    reveal_strlit("ba");
    reveal_strlit("scale-free");
    let l = network_model_label(m);
    assert(!crate::text::is_unicode_whitespace(l[0]));
    assert(!crate::text::is_unicode_whitespace(l.last()));
    assert(crate::text::trim_start_spec(l) == l);
    assert(crate::text::trim_end_spec(l) == l);
    if network_model_label(m) == network_model_label(k) && m != k {
        assert(network_model_label(m).len() != network_model_label(k).len() || network_model_label(
            m,
        )[0] != network_model_label(k)[0]);
    }
}

/// The canonical name of every decision mode reads back as that mode, and the two
/// modes have different names.
pub proof fn lemma_decision_mode_label_round_trip(m: DecisionMode, k: DecisionMode)
    ensures
        decision_mode_named(decision_mode_label(m)) == Some(m),
        trimmed(decision_mode_label(m)) == decision_mode_label(m),
        decision_mode_label(m) == decision_mode_label(k) ==> m == k,
{
    reveal_strlit("rule");
    reveal_strlit("logit");
    reveal_strlit("logistic");
    reveal_strlit("llm");
    reveal_strlit("introspect");
    let l = decision_mode_label(m);
    assert(!crate::text::is_unicode_whitespace(l[0]));
    assert(!crate::text::is_unicode_whitespace(l.last()));
    assert(crate::text::trim_start_spec(l) == l);
    assert(crate::text::trim_end_spec(l) == l);
    if decision_mode_label(m) == decision_mode_label(k) && m != k {
        assert(decision_mode_label(m).len() != decision_mode_label(k).len());
    }
}

/// Every network model label is ASCII, has no surrounding white space and no
/// upper-case letter.
pub proof fn lemma_network_model_label_canonical(m: NetworkModel)
    ensures
        all_ascii(network_model_label(m)),
        trimmed(network_model_label(m)) == network_model_label(m),
        ascii_lowercase(network_model_label(m)) == network_model_label(m),
{
    reveal_strlit("watts-strogatz");
    reveal_strlit("erdos-renyi");
    reveal_strlit("barabasi-albert");
    let l = network_model_label(m);
    lemma_network_model_label_round_trip(m, m);
    assert(ascii_lowercase(l) =~= l);
}

/// Every decision mode label is ASCII, has no surrounding white space and no
/// upper-case letter.
pub proof fn lemma_decision_mode_label_canonical(m: DecisionMode)
    ensures
        all_ascii(decision_mode_label(m)),
        trimmed(decision_mode_label(m)) == decision_mode_label(m),
        ascii_lowercase(decision_mode_label(m)) == decision_mode_label(m),
{
    reveal_strlit("rule");
    reveal_strlit("llm");
    let l = decision_mode_label(m);
    lemma_decision_mode_label_round_trip(m, m);
    assert(ascii_lowercase(l) =~= l);
}

/// The accepted names: every alias names its own network model, and nothing else.
pub proof fn lemma_network_model_aliases(w: Seq<char>)
    ensures
        network_model_named("watts-strogatz"@) == Some(NetworkModel::WattsStrogatz),
        network_model_named("ws"@) == Some(NetworkModel::WattsStrogatz),
        network_model_named("small-world"@) == Some(NetworkModel::WattsStrogatz),
        network_model_named("erdos-renyi"@) == Some(NetworkModel::ErdosRenyi),
        network_model_named("er"@) == Some(NetworkModel::ErdosRenyi),
        network_model_named("random"@) == Some(NetworkModel::ErdosRenyi),
        network_model_named("barabasi-albert"@) == Some(NetworkModel::BarabasiAlbert),
        network_model_named("ba"@) == Some(NetworkModel::BarabasiAlbert),
        network_model_named("scale-free"@) == Some(NetworkModel::BarabasiAlbert),
        network_model_named(w) is Some <==> (w == "watts-strogatz"@ || w == "ws"@ || w
            == "small-world"@ || w == "erdos-renyi"@ || w == "er"@ || w == "random"@ || w
            == "barabasi-albert"@ || w == "ba"@ || w == "scale-free"@),
{
    reveal_strlit("watts-strogatz");
    reveal_strlit("ws");
    reveal_strlit("small-world");
    reveal_strlit("erdos-renyi");
    reveal_strlit("er");
    reveal_strlit("random");
    reveal_strlit("barabasi-albert");
    reveal_strlit("ba");
    reveal_strlit("scale-free");
    assert("ws"@.len() != "watts-strogatz"@.len());
    assert("small-world"@.len() != "watts-strogatz"@.len());
    assert("small-world"@.len() != "ws"@.len());
    assert("erdos-renyi"@.len() != "watts-strogatz"@.len());
    assert("erdos-renyi"@.len() != "ws"@.len());
    assert("erdos-renyi"@[0] != "small-world"@[0]);
    assert("er"@.len() != "watts-strogatz"@.len());
    assert("er"@[0] != "ws"@[0]);
    assert("er"@.len() != "small-world"@.len());
    assert("er"@.len() != "erdos-renyi"@.len());
    assert("random"@.len() != "watts-strogatz"@.len());
    assert("random"@.len() != "ws"@.len());
    assert("random"@.len() != "small-world"@.len());
    assert("random"@.len() != "erdos-renyi"@.len());
    assert("random"@.len() != "er"@.len());
    assert("barabasi-albert"@.len() != "watts-strogatz"@.len());
    assert("barabasi-albert"@.len() != "ws"@.len());
    assert("barabasi-albert"@.len() != "small-world"@.len());
    assert("barabasi-albert"@.len() != "erdos-renyi"@.len());
    assert("barabasi-albert"@.len() != "er"@.len());
    assert("barabasi-albert"@.len() != "random"@.len());
    assert("ba"@.len() != "watts-strogatz"@.len());
    assert("ba"@[0] != "ws"@[0]);
    assert("ba"@.len() != "small-world"@.len());
    assert("ba"@.len() != "erdos-renyi"@.len());
    assert("ba"@[0] != "er"@[0]);
    assert("ba"@.len() != "random"@.len());
    assert("ba"@.len() != "barabasi-albert"@.len());
    assert("scale-free"@.len() != "watts-strogatz"@.len());
    assert("scale-free"@.len() != "ws"@.len());
    assert("scale-free"@.len() != "small-world"@.len());
    assert("scale-free"@.len() != "erdos-renyi"@.len());
    assert("scale-free"@.len() != "er"@.len());
    assert("scale-free"@.len() != "random"@.len());
    assert("scale-free"@.len() != "barabasi-albert"@.len());
    assert("scale-free"@.len() != "ba"@.len());
}

/// The accepted names: every alias names its own decision mode, and nothing else.
pub proof fn lemma_decision_mode_aliases(w: Seq<char>)
    ensures
        decision_mode_named("rule"@) == Some(DecisionMode::Rule),
        decision_mode_named("logit"@) == Some(DecisionMode::Rule),
        decision_mode_named("logistic"@) == Some(DecisionMode::Rule),
        decision_mode_named("llm"@) == Some(DecisionMode::Llm),
        decision_mode_named("introspect"@) == Some(DecisionMode::Llm),
        decision_mode_named(w) is Some <==> (w == "rule"@ || w == "logit"@ || w == "logistic"@
            || w == "llm"@ || w == "introspect"@),
{
    reveal_strlit("rule");
    reveal_strlit("logit");
    reveal_strlit("logistic");
    reveal_strlit("llm");
    reveal_strlit("introspect");
    assert("logit"@.len() != "rule"@.len());
    assert("logistic"@.len() != "rule"@.len());
    assert("logistic"@.len() != "logit"@.len());
    assert("llm"@.len() != "rule"@.len());
    assert("llm"@.len() != "logit"@.len());
    assert("llm"@.len() != "logistic"@.len());
    assert("introspect"@.len() != "rule"@.len());
    assert("introspect"@.len() != "logit"@.len());
    assert("introspect"@.len() != "logistic"@.len());
    assert("introspect"@.len() != "llm"@.len());
}

} // verus!
