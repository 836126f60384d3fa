//! The whole analysis: every detector over the records, then the classifier.
use vstd::prelude::*;
use crate::classifier::{classify, detect_mood, insufficient_note};
use crate::diversity::{diversity_signals, DiversitySignals};
use crate::errors::{error_signals, ErrorSignals};
use crate::frequency::{frequency_signals, FrequencySignals, MAX_RECORDS};
use crate::history::HistoryEntry;
use crate::moods::{Mood, MoodId, MoodView};
use crate::signals::{scores_bounded, SignalCollection, SignalView};
use crate::temporal::{stamps_wf, temporal_signals, TemporalSignals};

verus! {

/// The signals of all four detectors, in the order frequency, temporal,
/// errors, diversity; none for an empty history.
pub open spec fn all_signals(es: Seq<HistoryEntry>) -> Seq<SignalView> {
    if es.len() == 0 {
        seq![]
    } else {
        frequency_signals(es) + temporal_signals(es) + error_signals(es) + diversity_signals(es)
    }
}

/// Analyze history entries and detect all signals.
pub fn analyze(entries: &[HistoryEntry]) -> (r: SignalCollection)
    requires
        entries@.len() <= MAX_RECORDS,
        stamps_wf(entries@),
    ensures
        r@ == all_signals(entries@),
        scores_bounded(r@),
{
    let mut signals = SignalCollection::new();
    if entries.len() == 0 {
        return signals;
    }
    signals.merge(FrequencySignals::analyze(entries));
    signals.merge(TemporalSignals::analyze(entries));
    signals.merge(ErrorSignals::analyze(entries));
    signals.merge(DiversitySignals::analyze(entries));
    signals
}

/// The mood of a history, with the signals it was read from.
pub fn read_mood(entries: &[HistoryEntry]) -> (r: (SignalCollection, Mood))
    requires
        entries@.len() <= MAX_RECORDS,
        stamps_wf(entries@),
    ensures
        r.0@ == all_signals(entries@),
        r.1@ == classify(all_signals(entries@)),
{
    let signals = analyze(entries);
    let mood = detect_mood(&signals);
    (signals, mood)
}

/// No records give no signals, and no signals give the neutral mood with
/// confidence 0 and the note that the signals are too weak.
pub proof fn law_no_records_is_neutral()
    ensures
        all_signals(Seq::<HistoryEntry>::empty()) == Seq::<SignalView>::empty(),
        classify(all_signals(Seq::<HistoryEntry>::empty())) == (MoodView {
            id: MoodId::Neutral,
            confidence: 0,
            notes: seq![insufficient_note()],
        }),
{
    assert(all_signals(Seq::<HistoryEntry>::empty()) =~= Seq::<SignalView>::empty());
}

} // verus!
