# Spiral of silence — verified core

An agent-based model of Noelle-Neumann's *spiral of silence*: every agent holds a
private opinion and, separately, a public expression (voice for its side, or
silence); it reads the climate of opinion only from what its neighbours say in
public, and falls silent when its side seems to shrink.

`src/` is the part of the model that is decided by counting and choosing, verified
with Verus:

| Module | Holds |
|--------|-------|
| `world` | expressions, the sign of a private opinion, expression tallies, activation and the synchronous write-back of decisions |
| `climate` | the neighbourhood reading of the climate, the bounded memory of readings, the convergence rule |
| `metrics` | majority / minority camps and the counts behind voice-by-camp, log-odds and hardcore survival |
| `population` | placing the camps: a Fisher–Yates pass that keeps the number of pro agents |
| `seed` | deterministic seed derivation for random streams and sweep trials |
| `config` | network models and decision modes, with their command-line names |
| `text` | trimming, case folding and comma-separated lists |
| `answer` | reading SPEAK / SILENT off a language model's introspective answer |
| `llm` | which backend answered |

`app/` is the command-line program around it: configuration with real-valued
coefficients, the mechanisms of the six-phase loop, metrics as ratios, the run
drivers, recording, and the language-model oracle.
