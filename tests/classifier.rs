use tty_mood::classifier::{detect_mood, mood_score};
use tty_mood::classifier::{
    score_ambient_drift, score_bureaucratic_zen, score_chaotic_neutral, score_emergency_mode,
    score_exhausted, score_feral_productivity, score_methodical, score_recursive_doubt,
};
use tty_mood::moods::MoodId;
use tty_mood::signals::{Signal, SignalCollection};

fn signals_with(pairs: &[(&str, i64)]) -> SignalCollection {
    let mut signals = SignalCollection::new();
    for (id, score) in pairs {
        signals.add(Signal::new(id, *score));
    }
    signals
}

#[test]
fn feral_productivity_detected() {
    let signals = signals_with(&[
        ("cadence_high", 8000),
        ("command_diversity_high", 7000),
        ("late_night_orbit", 6000),
    ]);

    let mood = detect_mood(&signals);
    assert_eq!(mood.id, MoodId::FeralProductivity);
    assert!(mood.confidence > 500_000);
}

#[test]
fn exhausted_detected() {
    let signals = signals_with(&[
        ("cadence_low", 8000),
        ("typo_rate_high", 7000),
        ("repeat_commands", 5000),
    ]);

    let mood = detect_mood(&signals);
    assert_eq!(mood.id, MoodId::Exhausted);
}

#[test]
fn exhausted_confidence_is_exact() {
    let signals = signals_with(&[
        ("cadence_low", 8000),
        ("typo_rate_high", 7000),
        ("repeat_commands", 5000),
    ]);
    let mood = detect_mood(&signals);
    // 0.3 x 0.8 + 0.3 x (0.8 x 0.7) + 0.2 x 0.5 + 0.2 x 0, in parts per million
    assert_eq!(mood.confidence, 240_000 + 168_000 + 100_000);
}

#[test]
fn neutral_when_no_signals() {
    let signals = SignalCollection::new();
    let mood = detect_mood(&signals);
    assert_eq!(mood.id, MoodId::Neutral);
    assert_eq!(mood.confidence, 0);
    assert_eq!(mood.notes, vec!["Insufficient signal strength for classification".to_string()]);
}

#[test]
fn recursive_doubt_from_status_checks() {
    let signals = signals_with(&[
        ("status_check_loop", 8000),
        ("repeat_commands", 6000),
        ("git_heavy", 7000),
    ]);

    let mood = detect_mood(&signals);
    assert_eq!(mood.id, MoodId::RecursiveDoubt);
}

#[test]
fn recursive_doubt_gets_git_bonus() {
    let signals = signals_with(&[
        ("status_check_loop", 8000),
        ("repeat_commands", 6000),
        ("git_heavy", 7000),
    ]);
    // 0.35 x 0.8 + 0.25 x 0.6 + 0.1 x 0.7 + 0.2
    assert_eq!(mood_score(MoodId::RecursiveDoubt, &signals), 280_000 + 150_000 + 70_000 + 200_000);
    let without = signals_with(&[("status_check_loop", 8000), ("git_heavy", 5000)]);
    assert_eq!(mood_score(MoodId::RecursiveDoubt, &without), 280_000 + 50_000);
}

#[test]
fn emergency_needs_two_indicators() {
    let signals = signals_with(&[("burst_pattern", 9000)]);
    assert_eq!(mood_score(MoodId::EmergencyMode, &signals), 0);
    let two = signals_with(&[("burst_pattern", 9000), ("typo_rate_high", 4000)]);
    assert_eq!(mood_score(MoodId::EmergencyMode, &two), 270_000 + 120_000);
}

#[test]
fn penalties_floor_at_zero() {
    let signals = signals_with(&[("typo_rate_high", 10000)]);
    assert_eq!(mood_score(MoodId::FeralProductivity, &signals), 0);
    assert_eq!(mood_score(MoodId::Neutral, &signals), 0);
}

#[test]
fn raising_a_weighted_signal_never_lowers_the_score() {
    let low = signals_with(&[("cadence_high", 3000), ("typo_rate_high", 2000)]);
    let high = signals_with(&[("cadence_high", 6000), ("typo_rate_high", 2000)]);
    assert!(mood_score(MoodId::FeralProductivity, &low) <= mood_score(MoodId::FeralProductivity, &high));
    assert!(mood_score(MoodId::EmergencyMode, &low) <= mood_score(MoodId::EmergencyMode, &high));
}

#[test]
fn classification_is_repeatable() {
    let signals = signals_with(&[("steady_rhythm", 9000), ("git_heavy", 8000)]);
    let a = detect_mood(&signals);
    let b = detect_mood(&signals);
    assert_eq!(a.id, b.id);
    assert_eq!(a.confidence, b.confidence);
    assert_eq!(a.notes, b.notes);
}

#[test]
fn confidence_is_capped_at_one() {
    let signals = signals_with(&[
        ("cadence_low", 10000),
        ("typo_rate_high", 10000),
        ("typo_rate_medium", 10000),
        ("repeat_commands", 10000),
        ("late_night_orbit", 10000),
    ]);
    let mood = detect_mood(&signals);
    assert_eq!(mood.id, MoodId::Exhausted);
    assert_eq!(mood.confidence, 1_000_000);
}

#[test]
fn winner_carries_notes_of_all_strong_signals() {
    let mut signals = SignalCollection::new();
    signals.add(Signal::new("cadence_high", 9000).with_note("fast".to_string()));
    signals.add(Signal::new("lunch_void", 8000).with_note("no lunch".to_string()));
    signals.add(Signal::new("peak_hours", 6000).with_note("weak".to_string()));
    signals.add(Signal::new("command_diversity_high", 9000));
    let mood = detect_mood(&signals);
    assert_eq!(mood.id, MoodId::FeralProductivity);
    assert_eq!(mood.notes, vec!["fast".to_string(), "no lunch".to_string()]);
}

#[test]
fn ties_go_to_the_earlier_mood() {
    let tie = signals_with(&[
        ("cadence_low", 10000),
        ("late_night_orbit", 10000),
        ("status_check_loop", 5000),
    ]);
    assert_eq!(mood_score(MoodId::Exhausted, &tie), 500_000);
    assert_eq!(mood_score(MoodId::AmbientDrift, &tie), 500_000);
    assert_eq!(detect_mood(&tie).id, MoodId::Exhausted);
}

#[test]
fn each_mood_score_grows_with_its_weighted_signals() {
    let scorers: [(fn(&SignalCollection) -> u32, &[&str]); 8] = [
        (score_feral_productivity, &["cadence_high", "command_diversity_high", "late_night_orbit", "burst_pattern"]),
        (score_exhausted, &["cadence_low", "typo_rate_high", "typo_rate_medium", "repeat_commands", "late_night_orbit"]),
        (score_methodical, &["steady_rhythm", "typo_rate_low", "build_cycle", "git_heavy"]),
        (score_chaotic_neutral, &["command_diversity_high", "burst_pattern", "context_switching", "time_spread"]),
        (score_bureaucratic_zen, &["steady_rhythm", "git_heavy", "typo_rate_low", "weekday_bound"]),
        (score_ambient_drift, &["command_diversity_low", "cadence_low", "status_check_loop"]),
        (score_recursive_doubt, &["status_check_loop", "repeat_commands", "correction_pattern", "git_heavy"]),
        (score_emergency_mode, &["burst_pattern", "typo_rate_high", "correction_pattern", "cadence_high"]),
    ];
    let base: &[(&str, i64)] = &[
        ("burst_pattern", 4000),
        ("typo_rate_high", 2000),
        ("git_heavy", 5000),
        ("status_check_loop", 6000),
        ("steady_rhythm", 3000),
        ("late_night_orbit", 3000),
        ("context_switching", 2000),
    ];
    for (score, keys) in scorers.iter() {
        for key in keys.iter() {
            let mut prev = 0u32;
            for level in [0i64, 2500, 5001, 7500, 10000] {
                let mut pairs: Vec<(&str, i64)> = base.iter().filter(|(id, _)| id != key).cloned().collect();
                pairs.push((key, level));
                let value = score(&signals_with(&pairs));
                assert!(value >= prev, "{} at {}", key, level);
                prev = value;
            }
        }
    }
}
