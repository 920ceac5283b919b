//! The spiral of silence: the discrete core of an agent-based opinion-dynamics model.
//!
//! Each agent holds a private opinion (only its sign matters here) and a public
//! expression (voice for its side, or silence).  The modules hold the parts of the
//! model that are decided by counting and choosing: the expression rules, the
//! quasi-statistical reading of the neighbourhood climate, the tallies behind the
//! population metrics, the convergence rule, the command-line vocabulary, and the
//! parsing of a language model's introspective answer.
pub mod world;
pub mod metrics;
pub mod climate;
pub mod text;
pub mod config;
pub mod answer;
pub mod population;
pub mod llm;
pub mod seed;
