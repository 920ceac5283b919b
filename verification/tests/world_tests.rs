use noelleneumann_spiral_simulation::world::{
    apparent_support_counts, count_pro_opinions, decide_expressions, is_active, set_active,
    tally_expressions, Expression, OpinionSign,
};

fn tiny_signs() -> Vec<OpinionSign> {
    vec![
        OpinionSign::Positive,
        OpinionSign::Positive,
        OpinionSign::Positive,
        OpinionSign::Negative,
        OpinionSign::Negative,
        OpinionSign::Negative,
    ]
}

fn tiny_expressions() -> Vec<Expression> {
    vec![
        Expression::VoicePro,
        Expression::Silence,
        Expression::VoicePro,
        Expression::Silence,
        Expression::VoiceCon,
        Expression::Silence,
    ]
}

#[test]
fn true_support_counts_positive_priv() {
    let signs = tiny_signs();
    let pro = count_pro_opinions(&signs);
    assert!((pro as f64 / signs.len() as f64 - 0.5).abs() < 1e-12);
}

#[test]
fn apparent_support_excludes_silence() {
    let (pro, voicing) = apparent_support_counts(&tiny_expressions()).unwrap();
    assert!((pro as f64 / voicing as f64 - 2.0 / 3.0).abs() < 1e-12);
}

#[test]
fn binary_state_active_iff_voicing() {
    let e = tiny_expressions();
    assert!(is_active(&e, 0));
    assert!(!is_active(&e, 1));
}

#[test]
fn expression_codes() {
    assert_eq!(Expression::VoicePro.code(), 1);
    assert_eq!(Expression::VoiceCon.code(), -1);
    assert_eq!(Expression::Silence.code(), 0);
    for e in [Expression::VoicePro, Expression::VoiceCon, Expression::Silence] {
        assert_eq!(e.is_voicing(), e.code() != 0);
    }
}

#[test]
fn nobody_speaking_has_no_apparent_support() {
    let e = vec![Expression::Silence; 4];
    assert_eq!(apparent_support_counts(&e), None);
    assert_eq!(apparent_support_counts(&[]), None);
}

#[test]
fn tally_covers_everyone() {
    let t = tally_expressions(&tiny_expressions());
    assert_eq!((t.pro, t.con, t.silence), (2, 1, 3));
    assert_eq!(t.voicing(), 3);
}

#[test]
fn zero_opinions_are_not_pro() {
    let signs = vec![
        OpinionSign::PositiveZero,
        OpinionSign::NegativeZero,
        OpinionSign::Positive,
    ];
    assert_eq!(count_pro_opinions(&signs), 1);
}

#[test]
fn activation_reads_back_and_follows_private_side() {
    let signs = vec![
        OpinionSign::Positive,
        OpinionSign::Negative,
        OpinionSign::NegativeZero,
    ];
    let mut e = vec![Expression::Silence; 3];
    set_active(&mut e, 0, signs[0], true);
    set_active(&mut e, 1, signs[1], true);
    set_active(&mut e, 2, signs[2], true);
    assert_eq!(
        e,
        vec![Expression::VoicePro, Expression::VoiceCon, Expression::VoicePro]
    );
    assert!(is_active(&e, 1));
    set_active(&mut e, 1, signs[1], false);
    assert!(!is_active(&e, 1));
    assert_eq!(e[0], Expression::VoicePro);
    assert_eq!(e[2], Expression::VoicePro);
}

#[test]
fn decisions_voice_own_side_or_stay_silent() {
    let signs = vec![
        OpinionSign::Positive,
        OpinionSign::Negative,
        OpinionSign::PositiveZero,
        OpinionSign::Negative,
    ];
    let e = decide_expressions(&[true, true, true, false], &signs);
    assert_eq!(
        e,
        vec![
            Expression::VoicePro,
            Expression::VoiceCon,
            Expression::VoicePro,
            Expression::Silence
        ]
    );
}

#[test]
fn sign_comparisons_at_the_zeros() {
    assert!(OpinionSign::PositiveZero.speaks_pro());
    assert!(OpinionSign::NegativeZero.speaks_pro());
    assert!(OpinionSign::PositiveZero.reads_climate_as_pro());
    assert!(!OpinionSign::NegativeZero.reads_climate_as_pro());
    assert!(!OpinionSign::PositiveZero.is_pro() && !OpinionSign::PositiveZero.is_con());
    assert_eq!(OpinionSign::Negative.voiced_expression(), Expression::VoiceCon);
}
