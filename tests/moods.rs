use tty_mood::moods::{Mood, MoodId};

#[test]
fn mood_id_has_label() {
    for mood in MoodId::all() {
        assert!(!mood.label().is_empty());
        assert!(!mood.description().is_empty());
    }
}

#[test]
fn mood_confidence_clamped() {
    let mood = Mood::new(MoodId::Exhausted, 1_500_000);
    assert_eq!(mood.confidence, 1_000_000);

    let mood = Mood::new(MoodId::Exhausted, -500_000);
    assert_eq!(mood.confidence, 0);
}

#[test]
fn all_lists_eight_moods_without_neutral() {
    let all = MoodId::all();
    assert_eq!(all.len(), 8);
    assert!(!all.contains(&MoodId::Neutral));
    assert_eq!(all[0], MoodId::FeralProductivity);
    assert_eq!(all[7], MoodId::EmergencyMode);
}

#[test]
fn labels_are_exact() {
    assert_eq!(MoodId::RecursiveDoubt.label(), "recursive doubt");
    assert_eq!(MoodId::Neutral.description(), "Insufficient data for classification");
}

#[test]
fn mood_notes_and_flags() {
    let mood = Mood::new(MoodId::Methodical, 700_000)
        .with_note("a")
        .with_notes(vec!["b".to_string()]);
    assert_eq!(mood.notes, vec!["a".to_string(), "b".to_string()]);
    assert!(mood.is_confident());
    assert!(!mood.is_neutral());
    assert_eq!(mood.label(), "methodical");
    assert!(Mood::neutral().is_neutral());
    assert!(!Mood::new(MoodId::Methodical, 699_999).is_confident());
}
