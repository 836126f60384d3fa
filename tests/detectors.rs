use time::{Date, Duration, Month, OffsetDateTime, Time, UtcOffset};
use tty_mood::analysis::{analyze, read_mood};
use tty_mood::diversity::DiversitySignals;
use tty_mood::errors::ErrorSignals;
use tty_mood::frequency::FrequencySignals;
use tty_mood::history::{HistoryEntry, Timestamp};
use tty_mood::moods::MoodId;
use tty_mood::temporal::TemporalSignals;

fn stamp(unix: i64) -> Option<Timestamp> {
    Some(Timestamp::from_unix(unix).unwrap())
}

fn make_entries_with_interval(count: usize, interval_secs: i64) -> Vec<HistoryEntry> {
    let start = OffsetDateTime::now_utc();
    (0..count)
        .map(|i| {
            let ts = start + Duration::seconds(interval_secs * i as i64);
            HistoryEntry::new(format!("cmd{}", i), stamp(ts.unix_timestamp()), i + 1)
        })
        .collect()
}

fn entry_at_hour(hour: u8) -> HistoryEntry {
    let date = Date::from_calendar_date(2025, Month::January, 15).unwrap();
    let time = Time::from_hms(hour, 30, 0).unwrap();
    let dt = date.with_time(time).assume_offset(UtcOffset::UTC);
    HistoryEntry::new("test".into(), stamp(dt.unix_timestamp()), 1)
}

fn named(cmds: &[&str]) -> Vec<HistoryEntry> {
    cmds.iter()
        .enumerate()
        .map(|(i, cmd)| HistoryEntry::new(cmd.to_string(), None, i + 1))
        .collect()
}

#[test]
fn high_cadence_detected() {
    // 100 commands in ~30 minutes = ~200/hour
    let entries = make_entries_with_interval(100, 18);
    let signals = FrequencySignals::analyze(&entries);

    assert!(signals.score("cadence_high") > 5000);
}

#[test]
fn low_cadence_detected() {
    // 5 commands in 2 hours = 2.5/hour
    let entries = make_entries_with_interval(5, 1440); // 24 min apart
    let signals = FrequencySignals::analyze(&entries);

    assert!(signals.score("cadence_low") > 3000);
}

#[test]
fn steady_rhythm_detected() {
    // Commands every 30 seconds (very steady)
    let entries = make_entries_with_interval(20, 30);
    let signals = FrequencySignals::analyze(&entries);

    assert!(signals.score("steady_rhythm") > 7000);
}

#[test]
fn cadence_exact_values() {
    // 5 stamps over 96 minutes: 3.125 commands per hour
    let entries = make_entries_with_interval(5, 1440);
    let signals = FrequencySignals::analyze(&entries);
    let low = signals.get("cadence_low").unwrap();
    assert_eq!(low.score, 3750);
    assert_eq!(low.note.as_deref(), Some("3.1 commands/hour"));
    // a perfectly even rhythm has no variation
    let even = make_entries_with_interval(6, 60);
    assert_eq!(FrequencySignals::analyze(&even).score("steady_rhythm"), 10000);
}

#[test]
fn bursts_found_in_unsorted_stamps() {
    let base = 1_700_000_000i64;
    let order = [5i64, 0, 20, 10, 15, 1];
    let entries: Vec<HistoryEntry> = order
        .iter()
        .enumerate()
        .map(|(i, off)| HistoryEntry::new("x".into(), stamp(base + off * 2), i + 1))
        .collect();
    let signals = FrequencySignals::analyze(&entries);
    // sorted gaps: 2, 8, 10, 10, 10 -> 2 of 5 under ten seconds
    assert_eq!(signals.score("burst_pattern"), 4000);
}

#[test]
fn late_night_orbit_detected() {
    let entries: Vec<_> = (0..10)
        .map(|_| entry_at_hour(23))
        .chain((0..5).map(|_| entry_at_hour(14)))
        .collect();

    let signals = TemporalSignals::analyze(&entries);
    assert!(signals.score("late_night_orbit") > 5000);
}

#[test]
fn no_late_night_when_daytime() {
    let entries: Vec<_> = (0..20).map(|_| entry_at_hour(14)).collect();
    let signals = TemporalSignals::analyze(&entries);
    assert_eq!(signals.score("late_night_orbit"), 0);
}

#[test]
fn hour_histogram_signals() {
    let entries: Vec<_> = (0..3)
        .map(|_| entry_at_hour(9))
        .chain((0..3).map(|_| entry_at_hour(14)))
        .chain((0..2).map(|_| entry_at_hour(23)))
        .collect();
    let signals = TemporalSignals::analyze(&entries);
    let peak = signals.get("peak_hours").unwrap();
    assert_eq!(peak.score, 3750);
    assert_eq!(peak.note.as_deref(), Some("Most active: 09:00, 14:00"));
    assert_eq!(signals.score("time_concentrated"), 8750);
    let late = signals.get("late_night_orbit").unwrap();
    assert_eq!(late.score, 2500);
    assert_eq!(late.note.as_deref(), Some("25% of commands after 22:00"));
    // 2025-01-15 is a Wednesday
    assert_eq!(signals.score("weekend_warrior"), 0);
}

#[test]
fn utc_clock_gives_hour_and_weekday() {
    let ts = Timestamp::from_unix(1_736_951_400).unwrap(); // 2025-01-15 14:30 UTC
    assert_eq!(ts.hour, 14);
    assert_eq!(ts.weekday, 3);
    assert!(Timestamp::from_unix(i64::MAX).is_none());
}

#[test]
fn typo_detection() {
    let entries = named(&["gti", "sl", "cta", "git", "ls", "cat"]);
    let signals = ErrorSignals::analyze(&entries);
    // 3 typos out of 6 = 50%
    assert!(signals.score("typo_rate_high") > 5000);
}

#[test]
fn repeat_detection() {
    let entries = named(&["ls", "ls", "ls", "cd", "ls", "ls"]);
    let signals = ErrorSignals::analyze(&entries);
    assert!(signals.score("repeat_commands") > 5000);
}

#[test]
fn status_check_loop() {
    let entries = named(&["git", "ls", "git", "ls", "git", "pwd", "git"]);
    let signals = ErrorSignals::analyze(&entries);
    assert!(signals.score("status_check_loop") > 5000);
}

#[test]
fn error_signal_exact_values() {
    let entries = named(&["gti", "sl", "cta", "git", "ls", "cat"]);
    let signals = ErrorSignals::analyze(&entries);
    let high = signals.get("typo_rate_high").unwrap();
    assert_eq!(high.score, 10000);
    assert_eq!(high.note.as_deref(), Some("66% possible typos"));
    // four names of three bytes or fewer are unknown, `git` among them
    // gti->sl, sl->cta, git->ls, ls->cat differ by one or two characters
    assert_eq!(signals.score("correction_pattern"), 8000);
    assert_eq!(signals.score("status_check_loop"), 5000);
}

#[test]
fn correction_heuristic() {
    assert!(ErrorSignals::is_likely_correction("gti", "git"));
    assert!(!ErrorSignals::is_likely_correction("git", "git"));
    assert!(ErrorSignals::is_likely_correction("ls", "lsx"));
    assert!(!ErrorSignals::is_likely_correction("ls", "cargo"));
    assert_eq!(ErrorSignals::simple_distance("abc", "abd"), 1);
    assert_eq!(ErrorSignals::simple_distance("a", "abcd"), 3);
}

#[test]
fn high_diversity_detected() {
    let entries = named(&["git", "ls", "cd", "cat", "vim", "cargo", "npm", "python"]);
    let signals = DiversitySignals::analyze(&entries);
    assert!(signals.score("command_diversity_high") > 8000);
}

#[test]
fn tool_fixation_detected() {
    let entries = named(&["git", "git", "git", "git", "git", "ls", "cd"]);
    let signals = DiversitySignals::analyze(&entries);
    assert!(signals.score("tool_fixation") > 5000);
}

#[test]
fn git_heavy_detected() {
    let entries = named(&["git", "git", "git", "ls", "git", "cd", "git"]);
    let signals = DiversitySignals::analyze(&entries);
    assert!(signals.score("git_heavy") > 5000);
}

#[test]
fn diversity_exact_values() {
    let entries = named(&["git", "git", "git", "ls", "git", "cd", "git"]);
    let signals = DiversitySignals::analyze(&entries);
    let fix = signals.get("tool_fixation").unwrap();
    assert_eq!(fix.score, 7142);
    assert_eq!(fix.note.as_deref(), Some("Focused on: git"));
    let git = signals.get("git_heavy").unwrap();
    assert_eq!(git.score, 10000);
    assert_eq!(git.note.as_deref(), Some("5 git operations"));
    let all = named(&["a", "b", "c"]);
    let d = DiversitySignals::analyze(&all);
    assert_eq!(d.get("command_diversity_high").unwrap().note.as_deref(), Some("3 unique commands"));
}

#[test]
fn command_name_extracts_first_word() {
    let entry = HistoryEntry::new("git status".into(), None, 1);
    assert_eq!(entry.command_name(), "git");
}

#[test]
fn known_short_commands_not_typos() {
    let entry = HistoryEntry::new("ls".into(), None, 1);
    assert!(!entry.looks_like_typo());
}

#[test]
fn unknown_short_commands_are_typos() {
    let entry = HistoryEntry::new("gti".into(), None, 1);
    assert!(entry.looks_like_typo());
}

#[test]
fn typo_length_counts_bytes() {
    assert!(!HistoryEntry::new("éé".into(), None, 1).looks_like_typo());
    assert!(HistoryEntry::new("é".into(), None, 1).looks_like_typo());
}

#[test]
fn filter_keeps_entries_without_timestamps() {
    let entries = vec![
        HistoryEntry::new("cmd1".into(), None, 1),
        HistoryEntry::new("cmd2".into(), None, 2),
    ];
    let now = OffsetDateTime::now_utc().unix_timestamp();
    let filtered = tty_mood::history::filter_by_range(&entries, Some(now), None);
    assert_eq!(filtered.len(), 2);
}

#[test]
fn filter_drops_entries_out_of_range() {
    let entries = vec![
        HistoryEntry::new("old".into(), stamp(100), 1),
        HistoryEntry::new("new".into(), stamp(200), 2),
    ];
    let filtered = tty_mood::history::filter_by_range(&entries, Some(150), Some(250));
    assert_eq!(filtered.len(), 1);
    assert_eq!(filtered[0].command, "new");
}

#[test]
fn zero_records_give_neutral() {
    let (signals, mood) = read_mood(&[]);
    assert!(signals.signals.is_empty());
    assert_eq!(mood.id, MoodId::Neutral);
    assert_eq!(mood.confidence, 0);
    assert!(mood.notes[0].contains("Insufficient signal strength"));
}

#[test]
fn analyze_runs_all_detectors_in_order() {
    let entries = named(&["git", "git", "git", "ls", "git", "cd", "git"]);
    let signals = analyze(&entries);
    let first_error = signals.signals.iter().position(|s| s.id == "correction_pattern" || s.id == "repeat_commands" || s.id == "status_check_loop").unwrap();
    let first_diversity = signals.signals.iter().position(|s| s.id == "tool_fixation").unwrap();
    assert!(first_error < first_diversity);
}
