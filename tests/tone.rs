use tty_mood::moods::MoodId;
use tty_mood::tone::{Phrases, Tone};

#[test]
fn tone_for_all_moods() {
    for mood in MoodId::all() {
        let tone = Tone::for_mood(mood);
        assert!(tone.verbosity <= 10000);
        assert!(tone.formality <= 10000);
    }
}

#[test]
fn exhausted_tone_should_truncate() {
    let tone = Tone::for_mood(MoodId::Exhausted);
    assert!(tone.should_truncate());
}

#[test]
fn methodical_tone_should_elaborate() {
    let tone = Tone::for_mood(MoodId::Methodical);
    assert!(tone.should_elaborate());
}

#[test]
fn bureaucratic_zen_is_formal() {
    let tone = Tone::for_mood(MoodId::BureaucraticZen);
    assert!(tone.should_be_formal());
}

#[test]
fn tone_levels_are_clamped() {
    let tone = Tone::new(-1, 20000, 5000, 0, 10000);
    assert_eq!((tone.verbosity, tone.formality, tone.chaos, tone.energy, tone.certainty), (0, 10000, 5000, 0, 10000));
    assert!(Tone::for_mood(MoodId::ChaoticNeutral).should_inject_chaos());
    assert_eq!(Tone::for_mood(MoodId::Neutral), Tone::neutral());
}

#[test]
fn phrases_follow_the_tone() {
    let zen = Tone::for_mood(MoodId::BureaucraticZen);
    assert_eq!(Phrases::status_prefix(&zen), "OFFICIAL STATUS REPORT:");
    assert_eq!(Phrases::ending(&zen), "End of report. No action required.");
    let tired = Tone::for_mood(MoodId::Exhausted);
    assert_eq!(Phrases::status_prefix(&tired), "Status:");
    assert_eq!(Phrases::ending(&tired), "[transmission ends]");
    let chaotic = Tone::for_mood(MoodId::ChaoticNeutral);
    assert_eq!(Phrases::status_prefix(&chaotic), "STATUS (probably):");
    assert_eq!(Phrases::confidence_qualifier(&chaotic, 600_000), "maybe? who knows");
    let methodical = Tone::for_mood(MoodId::Methodical);
    assert_eq!(Phrases::confidence_qualifier(&methodical, 950_000), "confirmed");
    assert_eq!(Phrases::confidence_qualifier(&methodical, 800_000), "assessed with reasonable certainty");
    let doubt = Tone::for_mood(MoodId::RecursiveDoubt);
    assert_eq!(Phrases::confidence_qualifier(&doubt, 100_000), "speculatively at best");
}
