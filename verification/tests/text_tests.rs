use noelleneumann_spiral_simulation::answer::{answer_in_uppercased, parse_voice_answer, VoiceAnswer};
use noelleneumann_spiral_simulation::config::{
    decision_mode_from_word, network_model_from_word, parse_decision_mode, parse_network_model,
    DecisionMode, NetworkModel,
};
use noelleneumann_spiral_simulation::llm::{provider_of_endpoint, LlmProvider};
use noelleneumann_spiral_simulation::text::{list_items, parse_usize_list, try_parse_usize_list};

fn voice_response(text: &str) -> f64 {
    parse_voice_answer(text).voice_probability_percent() as f64 / 100.0
}

#[test]
fn parse_prefers_speak() {
    assert_eq!(voice_response("I will SPEAK"), 0.95);
    assert_eq!(voice_response("better stay SILENT"), 0.05);
    assert_eq!(voice_response("no clear answer"), 0.5);
}

#[test]
fn parse_takes_last_token() {
    assert_eq!(voice_response("first SILENT then SPEAK"), 0.95);
    assert_eq!(voice_response("first SPEAK then SILENT"), 0.05);
}

#[test]
fn answer_is_case_insensitive() {
    assert_eq!(parse_voice_answer("i will speak"), VoiceAnswer::Speak);
    assert_eq!(parse_voice_answer("Silent."), VoiceAnswer::Silent);
    // Upper-casing happens first: lower-case words are not seen by the raw reader.
    assert_eq!(answer_in_uppercased("i will speak"), VoiceAnswer::Unclear);
}

#[test]
fn network_model_names() {
    for m in [
        NetworkModel::WattsStrogatz,
        NetworkModel::ErdosRenyi,
        NetworkModel::BarabasiAlbert,
    ] {
        assert_eq!(parse_network_model(m.label()), Ok(m));
        assert_eq!(network_model_from_word(m.label()), Ok(m));
    }
    assert_eq!(parse_network_model("  WS "), Ok(NetworkModel::WattsStrogatz));
    assert_eq!(parse_network_model("Random"), Ok(NetworkModel::ErdosRenyi));
    assert_eq!(parse_network_model("scale-free\n"), Ok(NetworkModel::BarabasiAlbert));
    assert_eq!(NetworkModel::WattsStrogatz.label(), "watts-strogatz");
    assert_eq!(NetworkModel::ErdosRenyi.label(), "erdos-renyi");
    assert_eq!(NetworkModel::BarabasiAlbert.label(), "barabasi-albert");
}

#[test]
fn unknown_network_model_is_reported() {
    assert_eq!(
        parse_network_model(" Lattice "),
        Err("未知の網モデル: 'lattice' (watts-strogatz / erdos-renyi / barabasi-albert)".to_string())
    );
    assert!(network_model_from_word("WS").is_err());
}

#[test]
fn decision_mode_names() {
    for m in [DecisionMode::Rule, DecisionMode::Llm] {
        assert_eq!(parse_decision_mode(m.label()), Ok(m));
    }
    assert_eq!(parse_decision_mode("Logistic"), Ok(DecisionMode::Rule));
    assert_eq!(parse_decision_mode(" introspect"), Ok(DecisionMode::Llm));
    assert_eq!(DecisionMode::Rule.label(), "rule");
    assert_eq!(DecisionMode::Llm.label(), "llm");
    assert_eq!(
        parse_decision_mode("GPT"),
        Err("未知の決定モード: 'gpt' (rule / llm)".to_string())
    );
    assert_eq!(decision_mode_from_word("logit"), Ok(DecisionMode::Rule));
}

#[test]
fn white_space_case_and_numbers() {
    // Unicode white space (ideographic space, tab, newline) is trimmed.
    assert_eq!(list_items("\u{3000}4\t,\n 5 "), vec!["4", "5"]);
    assert_eq!(parse_network_model("\u{3000}ErDos-Renyi\u{2003}"), Ok(NetworkModel::ErdosRenyi));
    assert_eq!(parse_usize_list("+42, 007"), vec![42, 7]);
    assert_eq!(try_parse_usize_list("-4"), Err("-4".to_string()));
    assert_eq!(try_parse_usize_list("+"), Err("+".to_string()));
    assert_eq!(try_parse_usize_list("4 2"), Err("4 2".to_string()));
    assert_eq!(
        try_parse_usize_list("99999999999999999999999"),
        Err("99999999999999999999999".to_string())
    );
    // Non-ASCII letters whose upper case is ASCII are read as the ASCII word.
    assert_eq!(parse_voice_answer("\u{17f}peak"), VoiceAnswer::Speak);
}

#[test]
fn list_items_are_trimmed_and_nonempty() {
    assert_eq!(list_items(" 0.0, 0.25 ,,0.5 , "), vec!["0.0", "0.25", "0.5"]);
    assert_eq!(list_items(""), Vec::<&str>::new());
    assert_eq!(list_items("6"), vec!["6"]);
}

#[test]
fn usize_lists() {
    assert_eq!(parse_usize_list("6"), vec![6]);
    assert_eq!(parse_usize_list(" 4, 6 ,8,"), vec![4, 6, 8]);
    assert_eq!(parse_usize_list(""), Vec::<usize>::new());
    assert_eq!(try_parse_usize_list("4, x6, y"), Err("x6".to_string()));
    assert_eq!(try_parse_usize_list("4,-1"), Err("-1".to_string()));
}

#[test]
fn providers() {
    assert_eq!(provider_of_endpoint("mock://mock-spiral"), LlmProvider::Mock);
    assert_eq!(provider_of_endpoint("https://api.openai.com/v1"), LlmProvider::OpenAi);
    assert_eq!(provider_of_endpoint("http://localhost:11434"), LlmProvider::Ollama);
    assert_eq!(LlmProvider::Mock.name(), "mock");
    assert_eq!(LlmProvider::OpenAi.name(), "openai");
    assert_eq!(LlmProvider::Ollama.name(), "ollama");
}

#[test]
fn labels_parse_back_in_any_ascii_case() {
    assert_eq!(parse_network_model("BARABASI-ALBERT"), Ok(NetworkModel::BarabasiAlbert));
    assert_eq!(parse_decision_mode("LLM"), Ok(DecisionMode::Llm));
    assert_eq!(parse_voice_answer("Speak"), parse_voice_answer("speak"));
    assert_eq!(parse_voice_answer("silent then SPEAK"), VoiceAnswer::Speak);
}
