use std::collections::VecDeque;

use noelleneumann_spiral_simulation::climate::{
    history_window, neighbourhood_tallies, neighbourhood_tally, remember_reading,
    ConvergenceTracker,
};
use noelleneumann_spiral_simulation::metrics::{
    agent_role, camp_voice_counts, hardcore_survival_counts, minority_side_is_con, voices_own,
    Role,
};
use noelleneumann_spiral_simulation::population::{assign_camps, initial_camp_flags, shuffle_flags};
use noelleneumann_spiral_simulation::world::{
    apparent_support_counts, decide_expressions, Expression, OpinionSign,
};

use Expression::{Silence, VoiceCon, VoicePro};
use OpinionSign::{Negative, NegativeZero, Positive, PositiveZero};

#[test]
fn neighbourhood_reads_only_public_voices() {
    let e = vec![VoicePro, VoiceCon, Silence, VoicePro];
    let t = neighbourhood_tally(&[0, 1, 2, 3], &e, Positive);
    assert_eq!((t.size, t.voicing, t.same_side), (4, 3, 2));
    assert_eq!(t.observed_share(), Some((2, 3)));
    let t = neighbourhood_tally(&[0, 1, 2, 3], &e, NegativeZero);
    assert_eq!(t.same_side, 1);
    let t = neighbourhood_tally(&[2], &e, Positive);
    assert_eq!(t.observed_share(), None);
    let t = neighbourhood_tally(&[], &e, Negative);
    assert_eq!((t.size, t.voicing), (0, 0));
}

#[test]
fn every_agent_reads_its_own_neighbourhood() {
    let e = vec![VoicePro, VoiceCon, Silence];
    let adj = vec![vec![1, 2], vec![0, 2], vec![0, 1]];
    let ts = neighbourhood_tallies(&adj, &e, &[Positive, Negative, PositiveZero]);
    assert_eq!(ts.len(), 3);
    assert_eq!((ts[0].voicing, ts[0].same_side), (1, 0));
    assert_eq!((ts[1].voicing, ts[1].same_side), (1, 0));
    assert_eq!((ts[2].voicing, ts[2].same_side), (2, 1));
}

#[test]
fn memory_keeps_the_last_window() {
    let mut h: VecDeque<u32> = VecDeque::new();
    let w = history_window(3);
    for x in 1..=5 {
        remember_reading(&mut h, x, w);
    }
    assert_eq!(h, VecDeque::from(vec![3, 4, 5]));
    assert_eq!(history_window(0), 1);
    let mut h: VecDeque<u32> = VecDeque::from(vec![1, 2]);
    remember_reading(&mut h, 9, history_window(0));
    assert_eq!(h, VecDeque::from(vec![9]));
}

#[test]
fn five_small_changes_in_a_row_stop_the_run() {
    let mut t = ConvergenceTracker::new();
    assert!(!t.observe(None));
    for _ in 0..4 {
        assert!(!t.observe(Some(true)));
    }
    assert!(!t.observe(None));
    assert_eq!(t.stable_count(), 4);
    assert!(t.observe(Some(true)));
    assert!(!t.observe(Some(false)));
    assert_eq!(t.stable_count(), 0);
}

#[test]
fn camps_by_role() {
    // 3 pro, 2 con, 1 zero: pro is the majority (3/6 >= 0.5).
    let signs = vec![Positive, Positive, Positive, Negative, Negative, PositiveZero];
    assert!(minority_side_is_con(&signs));
    let e = vec![VoicePro, VoiceCon, Silence, VoiceCon, Silence, VoicePro];
    let c = camp_voice_counts(&signs, &e);
    assert_eq!(
        (c.majority_total, c.majority_voicing, c.minority_total, c.minority_voicing),
        (3, 1, 2, 1)
    );
    assert_eq!(agent_role(Positive, true), Some(Role::Majority));
    assert_eq!(agent_role(Negative, true), Some(Role::Minority));
    assert_eq!(agent_role(NegativeZero, true), None);
    assert!(voices_own(Negative, VoiceCon));
    assert!(!voices_own(Positive, VoiceCon));
    // 2 pro of 5: con is the majority.
    let signs = vec![Positive, Positive, Negative, Negative, Negative];
    assert!(!minority_side_is_con(&signs));
    assert!(!minority_side_is_con(&[]));
}

#[test]
fn hardcore_survival_with_fallback() {
    let signs = vec![Positive, Positive, Positive, Negative, Negative, Negative];
    let e = vec![VoicePro, VoicePro, Silence, VoiceCon, Silence, Silence];
    // Hardcore among the (con) minority: agents 3 and 4; one still voices.
    let hc = vec![false, false, true, true, true, false];
    assert_eq!(hardcore_survival_counts(&signs, &e, &hc), (1, 2));
    // No hardcore minority agent: share over the whole minority.
    let none = vec![true, false, false, false, false, false];
    assert_eq!(hardcore_survival_counts(&signs, &e, &none), (1, 3));
    // No minority at all.
    let all_pro = vec![Positive, Positive];
    assert_eq!(
        hardcore_survival_counts(&all_pro, &[VoicePro, Silence], &[true, true]),
        (0, 0)
    );
}

#[test]
fn camp_assignment_keeps_the_number_of_pro_agents() {
    assert_eq!(initial_camp_flags(4, 2), vec![true, true, false, false]);
    let flags = assign_camps(5, 2, &[0, 0, 0, 0]);
    assert_eq!(flags, vec![true, false, false, false, true]);
    assert_eq!(flags.iter().filter(|&&b| b).count(), 2);
    let flags = assign_camps(3, 7, &[1, 0]);
    assert_eq!(flags, vec![true, true, true]);
    let mut f = vec![true, false, false];
    shuffle_flags(&mut f, &[2, 1]);
    assert_eq!(f, vec![true, false, false]);
    assert_eq!(assign_camps(0, 3, &[]), Vec::<bool>::new());
}

#[test]
fn deciders_are_counted_in_their_own_camp() {
    let signs = vec![Positive, Positive, Negative, Negative, Negative, NegativeZero];
    let voices = [true, false, true, true, false, true];
    let e = decide_expressions(&voices, &signs);
    let c = camp_voice_counts(&signs, &e);
    // Con is the majority (2 pro of 6 < 0.5): two con deciders, one pro decider.
    assert_eq!((c.majority_voicing, c.minority_voicing), (2, 1));
    for i in 0..signs.len() {
        assert_eq!(voices_own(signs[i], e[i]), voices[i]);
    }
}

#[test]
fn climate_does_not_read_others_private_opinions() {
    let e = vec![VoicePro, VoiceCon, VoicePro];
    let adj = vec![vec![1, 2], vec![0, 2], vec![0, 1]];
    let a = neighbourhood_tallies(&adj, &e, &[Positive, Negative, Negative]);
    let b = neighbourhood_tallies(&adj, &e, &[Positive, Positive, PositiveZero]);
    assert_eq!(a[0], b[0]);
}

#[test]
fn silent_agents_do_not_move_apparent_support() {
    let e = vec![VoicePro, VoiceCon, VoicePro];
    let mut with_silence = e.clone();
    with_silence.insert(1, Silence);
    with_silence.push(Silence);
    assert_eq!(apparent_support_counts(&e), apparent_support_counts(&with_silence));
    assert_eq!(apparent_support_counts(&e), Some((2, 3)));
}

#[test]
fn aggregation_stops_at_the_sixth_tick_of_a_stable_climate() {
    let mut t = ConvergenceTracker::new();
    // Tick 1: nothing to compare with.
    assert!(!t.observe(None));
    // Ticks 2..=5: four stable comparisons, no stop yet.
    for _ in 0..4 {
        assert!(!t.observe(Some(true)));
    }
    // Tick 6: the fifth stable comparison in a row stops the run.
    assert!(t.observe(Some(true)));
    // A jump restarts the count.
    assert!(!t.observe(Some(false)));
    for _ in 0..4 {
        assert!(!t.observe(Some(true)));
    }
    assert!(t.observe(Some(true)));
}
