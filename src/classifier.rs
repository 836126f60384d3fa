//! Turns a signal collection into a mood.
//!
//! Each candidate mood has a fixed linear formula over a few signal scores.
//! Weights are in hundredths and scores in basis points, so every formula
//! yields an exact confidence in parts per million.
use vstd::prelude::*;
use crate::moods::{candidates, clamp_confidence, Mood, MoodId, MoodView, CONFIDENCE_ONE};
use crate::signals::{score_of, scores_bounded, strong_of, Signal, SignalCollection, SignalView};
use crate::signals::lemma_first_with_id_bounded;

verus! {

/// A winning score below this value (0.3) yields `Neutral`.
pub const MIN_CONFIDENCE: u32 = 300000;

/// The bonus for frequent status checks together with heavy git use (0.2).
pub const GIT_BONUS: u32 = 200000;

/// The signals that the mood formulas read.
#[derive(Clone, Copy, Debug, PartialEq, Eq, Structural)]
pub enum Indicator {
    CadenceHigh,
    CadenceLow,
    DiversityHigh,
    DiversityLow,
    LateNight,
    Burst,
    SteadyRhythm,
    TypoHigh,
    TypoMedium,
    TypoLow,
    Repeats,
    Corrections,
    StatusLoop,
    GitHeavy,
    BuildCycle,
    ContextSwitching,
    TimeSpread,
    WeekdayBound,
}

impl Indicator {
    /// The signal identifier that the indicator reads.
    pub open spec fn spec_name(self) -> Seq<char> {
        match self {
            Indicator::CadenceHigh => "cadence_high"@,
            Indicator::CadenceLow => "cadence_low"@,
            Indicator::DiversityHigh => "command_diversity_high"@,
            Indicator::DiversityLow => "command_diversity_low"@,
            Indicator::LateNight => "late_night_orbit"@,
            Indicator::Burst => "burst_pattern"@,
            Indicator::SteadyRhythm => "steady_rhythm"@,
            Indicator::TypoHigh => "typo_rate_high"@,
            Indicator::TypoMedium => "typo_rate_medium"@,
            Indicator::TypoLow => "typo_rate_low"@,
            Indicator::Repeats => "repeat_commands"@,
            Indicator::Corrections => "correction_pattern"@,
            Indicator::StatusLoop => "status_check_loop"@,
            Indicator::GitHeavy => "git_heavy"@,
            Indicator::BuildCycle => "build_cycle"@,
            Indicator::ContextSwitching => "context_switching"@,
            Indicator::TimeSpread => "time_spread"@,
            Indicator::WeekdayBound => "weekday_bound"@,
        }
    }

    /// The signal identifier that the indicator reads.
    pub fn name(&self) -> (r: &'static str)
        ensures
            r@ == self.spec_name(),
    {
        match self {
            Indicator::CadenceHigh => "cadence_high",
            Indicator::CadenceLow => "cadence_low",
            Indicator::DiversityHigh => "command_diversity_high",
            Indicator::DiversityLow => "command_diversity_low",
            Indicator::LateNight => "late_night_orbit",
            Indicator::Burst => "burst_pattern",
            Indicator::SteadyRhythm => "steady_rhythm",
            Indicator::TypoHigh => "typo_rate_high",
            Indicator::TypoMedium => "typo_rate_medium",
            Indicator::TypoLow => "typo_rate_low",
            Indicator::Repeats => "repeat_commands",
            Indicator::Corrections => "correction_pattern",
            Indicator::StatusLoop => "status_check_loop",
            Indicator::GitHeavy => "git_heavy",
            Indicator::BuildCycle => "build_cycle",
            Indicator::ContextSwitching => "context_switching",
            Indicator::TimeSpread => "time_spread",
            Indicator::WeekdayBound => "weekday_bound",
        }
    }
}

/// The indicator scores that a collection gives (0 where a signal is absent).
pub open spec fn scores_in(sigs: Seq<SignalView>) -> spec_fn(Indicator) -> int {
    |k: Indicator| score_of(sigs, k.spec_name())
}

/// Every indicator score lies in `[0, SCORE_ONE]`.
pub open spec fn lookup_bounded(f: spec_fn(Indicator) -> int) -> bool {
    forall|k: Indicator| 0 <= #[trigger] f(k) <= 10000
}

pub open spec fn at_least_zero(x: int) -> int {
    if x < 0 {
        0
    } else {
        x
    }
}

pub open spec fn at_most_one(x: int) -> int {
    if x > CONFIDENCE_ONE as int {
        CONFIDENCE_ONE as int
    } else {
        x
    }
}

/// The coefficient (in hundredths) of an indicator in a mood's linear part.
pub open spec fn weight(m: MoodId, k: Indicator) -> int {
    match m {
        MoodId::FeralProductivity => match k {
            Indicator::CadenceHigh => 35,
            Indicator::DiversityHigh => 25,
            Indicator::LateNight => 20,
            Indicator::Burst => 20,
            Indicator::TypoHigh => -30,
            _ => 0,
        },
        MoodId::Exhausted => match k {
            Indicator::CadenceLow => 30,
            Indicator::TypoHigh => 24,
            Indicator::TypoMedium => 12,
            Indicator::Repeats => 20,
            Indicator::LateNight => 20,
            _ => 0,
        },
        MoodId::Methodical => match k {
            Indicator::SteadyRhythm => 40,
            Indicator::TypoLow => 20,
            Indicator::BuildCycle => 10,
            Indicator::GitHeavy => 10,
            Indicator::Burst => -20,
            Indicator::ContextSwitching => -20,
            _ => 0,
        },
        MoodId::ChaoticNeutral => match k {
            Indicator::DiversityHigh => 30,
            Indicator::Burst => 25,
            Indicator::ContextSwitching => 25,
            Indicator::TimeSpread => 20,
            Indicator::SteadyRhythm => -30,
            _ => 0,
        },
        MoodId::BureaucraticZen => match k {
            Indicator::SteadyRhythm => 30,
            Indicator::GitHeavy => 30,
            Indicator::TypoLow => 20,
            Indicator::WeekdayBound => 20,
            Indicator::LateNight => -20,
            _ => 0,
        },
        MoodId::AmbientDrift => match k {
            Indicator::DiversityLow => 35,
            Indicator::CadenceLow => 35,
            Indicator::StatusLoop => 30,
            _ => 0,
        },
        MoodId::RecursiveDoubt => match k {
            Indicator::StatusLoop => 35,
            Indicator::Repeats => 25,
            Indicator::Corrections => 20,
            Indicator::GitHeavy => 10,
            _ => 0,
        },
        MoodId::EmergencyMode => match k {
            Indicator::Burst => 30,
            Indicator::TypoHigh => 30,
            Indicator::Corrections => 20,
            Indicator::CadenceHigh => 20,
            _ => 0,
        },
        MoodId::Neutral => 0,
    }
}

/// How many of the four emergency indicators hold.
pub open spec fn emergency_indicators(f: spec_fn(Indicator) -> int) -> int {
    (if f(Indicator::Burst) > 3000 { 1int } else { 0 })
        + (if f(Indicator::TypoHigh) > 3000 { 1int } else { 0 })
        + (if f(Indicator::Corrections) > 2000 { 1int } else { 0 })
        + (if f(Indicator::CadenceHigh) > 5000 { 1int } else { 0 })
}

/// Whether status checks and git use both exceed 0.5.
pub open spec fn git_bonus_applies(f: spec_fn(Indicator) -> int) -> bool {
    f(Indicator::StatusLoop) > 5000 && f(Indicator::GitHeavy) > 5000
}

/// A mood's score, in parts per million, from the indicator scores.
pub open spec fn formula(m: MoodId, f: spec_fn(Indicator) -> int) -> int {
    match m {
        MoodId::FeralProductivity => at_least_zero(
            35 * f(Indicator::CadenceHigh) + 25 * f(Indicator::DiversityHigh) + 20 * f(
                Indicator::LateNight,
            ) + 20 * f(Indicator::Burst) - 30 * f(Indicator::TypoHigh),
        ),
        MoodId::Exhausted => 30 * f(Indicator::CadenceLow) + 24 * f(Indicator::TypoHigh) + 12 * f(
            Indicator::TypoMedium,
        ) + 20 * f(Indicator::Repeats) + 20 * f(Indicator::LateNight),
        MoodId::Methodical => at_least_zero(
            40 * f(Indicator::SteadyRhythm) + 20 * f(Indicator::TypoLow) + 10 * f(
                Indicator::BuildCycle,
            ) + 10 * f(Indicator::GitHeavy) - 20 * f(Indicator::Burst) - 20 * f(
                Indicator::ContextSwitching,
            ),
        ),
        MoodId::ChaoticNeutral => at_least_zero(
            30 * f(Indicator::DiversityHigh) + 25 * f(Indicator::Burst) + 25 * f(
                Indicator::ContextSwitching,
            ) + 20 * f(Indicator::TimeSpread) - 30 * f(Indicator::SteadyRhythm),
        ),
        MoodId::BureaucraticZen => at_least_zero(
            30 * f(Indicator::SteadyRhythm) + 30 * f(Indicator::GitHeavy) + 20 * f(
                Indicator::TypoLow,
            ) + 20 * f(Indicator::WeekdayBound) - 20 * f(Indicator::LateNight),
        ),
        MoodId::AmbientDrift => 35 * f(Indicator::DiversityLow) + 35 * f(Indicator::CadenceLow)
            + 30 * f(Indicator::StatusLoop),
        MoodId::RecursiveDoubt => at_most_one(
            35 * f(Indicator::StatusLoop) + 25 * f(Indicator::Repeats) + 20 * f(
                Indicator::Corrections,
            ) + 10 * f(Indicator::GitHeavy) + if git_bonus_applies(f) {
                GIT_BONUS as int
            } else {
                0
            },
        ),
        MoodId::EmergencyMode => if emergency_indicators(f) >= 2 {
            30 * f(Indicator::Burst) + 30 * f(Indicator::TypoHigh) + 20 * f(Indicator::Corrections)
                + 20 * f(Indicator::CadenceHigh)
        } else {
            0
        },
        MoodId::Neutral => 0,
    }
}

/// A mood's score for a signal collection.
pub open spec fn weighted_score(m: MoodId, sigs: Seq<SignalView>) -> int {
    formula(m, scores_in(sigs))
}

/// The best of the first `n` candidates; an earlier candidate wins a tie.
pub open spec fn best_upto(sigs: Seq<SignalView>, n: int) -> MoodId
    decreases n,
{
    if n <= 1 {
        candidates()[0]
    } else {
        let prev = best_upto(sigs, n - 1);
        let c = candidates()[n - 1];
        if weighted_score(c, sigs) > weighted_score(prev, sigs) {
            c
        } else {
            prev
        }
    }
}

/// The winning candidate.
pub open spec fn winner(sigs: Seq<SignalView>) -> MoodId {
    best_upto(sigs, 8)
}

/// The notes of the given signals that have one, in order (the classifier
/// applies it to the strong signals that `strong_of` selects).
pub open spec fn notes_of(sigs: Seq<SignalView>) -> Seq<Seq<char>>
    decreases sigs.len(),
{
    if sigs.len() == 0 {
        seq![]
    } else {
        match sigs.last().note {
            Some(n) => notes_of(sigs.drop_last()).push(n),
            None => notes_of(sigs.drop_last()),
        }
    }
}

pub open spec fn insufficient_note() -> Seq<char> {
    "Insufficient signal strength for classification"@
}

/// The classification of a signal collection.
pub open spec fn classify(sigs: Seq<SignalView>) -> MoodView {
    let w = winner(sigs);
    let s = weighted_score(w, sigs);
    if s < MIN_CONFIDENCE as int {
        MoodView { id: MoodId::Neutral, confidence: 0, notes: seq![insufficient_note()] }
    } else {
        MoodView { id: w, confidence: clamp_confidence(s), notes: notes_of(strong_of(sigs)) }
    }
}

fn lookup(signals: &SignalCollection, k: Indicator) -> (r: u32)
    requires
        scores_bounded(signals@),
    ensures
        r as int == scores_in(signals@)(k),
        r <= 10000,
{
    proof {
        lemma_first_with_id_bounded(signals@, k.spec_name());
    }
    signals.score(k.name())
}

/// The score of FeralProductivity: high cadence, variety, late nights and bursts, less high typo rates.
pub fn score_feral_productivity(signals: &SignalCollection) -> (r: u32)
    requires
        scores_bounded(signals@),
    ensures
        r as int == weighted_score(MoodId::FeralProductivity, signals@),
{
    let cadence_high = lookup(signals, Indicator::CadenceHigh) as i64;
    let diversity_high = lookup(signals, Indicator::DiversityHigh) as i64;
    let late_night = lookup(signals, Indicator::LateNight) as i64;
    let burst = lookup(signals, Indicator::Burst) as i64;
    let base = cadence_high * 35 + diversity_high * 25 + late_night * 20 + burst * 20;
    let typo_penalty = lookup(signals, Indicator::TypoHigh) as i64 * 30;
    let s = base - typo_penalty;
    if s < 0 {
        0
    } else {
        s as u32
    }
}

/// The score of Exhausted: low cadence, typos, repeats and late nights.
pub fn score_exhausted(signals: &SignalCollection) -> (r: u32)
    requires
        scores_bounded(signals@),
    ensures
        r as int == weighted_score(MoodId::Exhausted, signals@),
{
    let cadence_low = lookup(signals, Indicator::CadenceLow);
    let typo_high = lookup(signals, Indicator::TypoHigh);
    let typo_medium = lookup(signals, Indicator::TypoMedium);
    let repeats = lookup(signals, Indicator::Repeats);
    let late_night = lookup(signals, Indicator::LateNight);
    // three tenths of (0.8 x high + 0.4 x medium)
    let typo_score = typo_high * 24 + typo_medium * 12;
    cadence_low * 30 + typo_score + repeats * 20 + late_night * 20
}

/// The score of Methodical: steady rhythm, few typos and build or git work, less bursts and context switching.
pub fn score_methodical(signals: &SignalCollection) -> (r: u32)
    requires
        scores_bounded(signals@),
    ensures
        r as int == weighted_score(MoodId::Methodical, signals@),
{
    let rhythm = lookup(signals, Indicator::SteadyRhythm) as i64;
    let typo_low = lookup(signals, Indicator::TypoLow) as i64;
    let build_cycle = lookup(signals, Indicator::BuildCycle) as i64;
    let git_heavy = lookup(signals, Indicator::GitHeavy) as i64;
    // a fifth of half the sum
    let workflow_bonus = (build_cycle + git_heavy) * 10;
    let chaos_penalty = lookup(signals, Indicator::Burst) as i64 * 20 + lookup(
        signals,
        Indicator::ContextSwitching,
    ) as i64 * 20;
    let s = rhythm * 40 + typo_low * 20 + workflow_bonus - chaos_penalty;
    if s < 0 {
        0
    } else {
        s as u32
    }
}

/// The score of ChaoticNeutral: variety, bursts, context switching and spread hours, less steady rhythm.
pub fn score_chaotic_neutral(signals: &SignalCollection) -> (r: u32)
    requires
        scores_bounded(signals@),
    ensures
        r as int == weighted_score(MoodId::ChaoticNeutral, signals@),
{
    let diversity = lookup(signals, Indicator::DiversityHigh) as i64;
    let burst = lookup(signals, Indicator::Burst) as i64;
    let context_switch = lookup(signals, Indicator::ContextSwitching) as i64;
    let time_spread = lookup(signals, Indicator::TimeSpread) as i64;
    let base = diversity * 30 + burst * 25 + context_switch * 25 + time_spread * 20;
    let order_penalty = lookup(signals, Indicator::SteadyRhythm) as i64 * 30;
    let s = base - order_penalty;
    if s < 0 {
        0
    } else {
        s as u32
    }
}

/// The score of BureaucraticZen: steady rhythm, git, few typos and weekdays, less late nights.
pub fn score_bureaucratic_zen(signals: &SignalCollection) -> (r: u32)
    requires
        scores_bounded(signals@),
    ensures
        r as int == weighted_score(MoodId::BureaucraticZen, signals@),
{
    let rhythm = lookup(signals, Indicator::SteadyRhythm) as i64;
    let git_heavy = lookup(signals, Indicator::GitHeavy) as i64;
    let typo_low = lookup(signals, Indicator::TypoLow) as i64;
    let weekday = lookup(signals, Indicator::WeekdayBound) as i64;
    let base = rhythm * 30 + git_heavy * 30 + typo_low * 20 + weekday * 20;
    let chaos_penalty = lookup(signals, Indicator::LateNight) as i64 * 20;
    let s = base - chaos_penalty;
    if s < 0 {
        0
    } else {
        s as u32
    }
}

/// The score of AmbientDrift: little variety, low cadence and status checks.
pub fn score_ambient_drift(signals: &SignalCollection) -> (r: u32)
    requires
        scores_bounded(signals@),
    ensures
        r as int == weighted_score(MoodId::AmbientDrift, signals@),
{
    let diversity_low = lookup(signals, Indicator::DiversityLow);
    let cadence_low = lookup(signals, Indicator::CadenceLow);
    let status_checks = lookup(signals, Indicator::StatusLoop);
    diversity_low * 35 + cadence_low * 35 + status_checks * 30
}

/// The score of RecursiveDoubt: status checks, repeats, corrections and git, with a bonus for
/// status checks and git both above 0.5, capped at 1.
pub fn score_recursive_doubt(signals: &SignalCollection) -> (r: u32)
    requires
        scores_bounded(signals@),
    ensures
        r as int == weighted_score(MoodId::RecursiveDoubt, signals@),
{
    let status_loop = lookup(signals, Indicator::StatusLoop);
    let repeats = lookup(signals, Indicator::Repeats);
    let corrections = lookup(signals, Indicator::Corrections);
    let git_heavy = lookup(signals, Indicator::GitHeavy);
    let base = status_loop * 35 + repeats * 25 + corrections * 20;
    let git_bonus: u32 = if status_loop > 5000 && git_heavy > 5000 {
        GIT_BONUS
    } else {
        0
    };
    let s = base + git_bonus + git_heavy * 10;
    if s > CONFIDENCE_ONE {
        CONFIDENCE_ONE
    } else {
        s
    }
}

/// The score of EmergencyMode: bursts, typos, corrections and high cadence, counted only
/// when two of the four indicators hold.
pub fn score_emergency_mode(signals: &SignalCollection) -> (r: u32)
    requires
        scores_bounded(signals@),
    ensures
        r as int == weighted_score(MoodId::EmergencyMode, signals@),
{
    let burst = lookup(signals, Indicator::Burst);
    let typo_high = lookup(signals, Indicator::TypoHigh);
    let corrections = lookup(signals, Indicator::Corrections);
    let cadence_high = lookup(signals, Indicator::CadenceHigh);
    let base = burst * 30 + typo_high * 30 + corrections * 20 + cadence_high * 20;
    let mut indicator_count: u32 = 0;
    if burst > 3000 {
        indicator_count = indicator_count + 1;
    }
    if typo_high > 3000 {
        indicator_count = indicator_count + 1;
    }
    if corrections > 2000 {
        indicator_count = indicator_count + 1;
    }
    if cadence_high > 5000 {
        indicator_count = indicator_count + 1;
    }
    if indicator_count < 2 {
        0
    } else {
        base
    }
}

/// A mood's weighted score for the collection, in parts per million
/// (0 for `Neutral`, which has no formula).
pub fn mood_score(m: MoodId, signals: &SignalCollection) -> (r: u32)
    requires
        scores_bounded(signals@),
    ensures
        r as int == weighted_score(m, signals@),
{
    match m {
        MoodId::FeralProductivity => score_feral_productivity(signals),
        MoodId::Exhausted => score_exhausted(signals),
        MoodId::Methodical => score_methodical(signals),
        MoodId::ChaoticNeutral => score_chaotic_neutral(signals),
        MoodId::BureaucraticZen => score_bureaucratic_zen(signals),
        MoodId::AmbientDrift => score_ambient_drift(signals),
        MoodId::RecursiveDoubt => score_recursive_doubt(signals),
        MoodId::EmergencyMode => score_emergency_mode(signals),
        MoodId::Neutral => 0,
    }
}

/// Classifies a signal collection: the candidate with the highest score wins
/// (the earlier one in `MoodId::all` order on a tie); a winning score below
/// 0.3 gives `Neutral` with a note instead. A winner carries the notes of
/// all strong signals of the collection.
pub fn detect_mood(signals: &SignalCollection) -> (r: Mood)
    requires
        scores_bounded(signals@),
    ensures
        r@ == classify(signals@),
        0 <= r@.confidence <= CONFIDENCE_ONE as int,
{
    let all = MoodId::all();
    let mut best = all[0];
    let mut best_score = mood_score(best, signals);
    let mut i: usize = 1;
    while i < all.len()
        invariant
            1 <= i <= all.len(),
            all@ == candidates(),
            scores_bounded(signals@),
            best == best_upto(signals@, i as int),
            best_score as int == weighted_score(best, signals@),
        decreases all.len() - i,
    {
        let s = mood_score(all[i], signals);
        if s > best_score {
            best = all[i];
            best_score = s;
        }
        i = i + 1;
    }
    if best_score < MIN_CONFIDENCE {
        return Mood::neutral().with_note("Insufficient signal strength for classification");
    }
    let mut mood = Mood::new(best, best_score as i64);
    let strong = signals.strong_signals();
    let ghost strong_view = strong@.map_values(|s: &Signal| s@);
    let mut j: usize = 0;
    while j < strong.len()
        invariant
            j <= strong.len(),
            strong_view == strong@.map_values(|s: &Signal| s@),
            strong_view == strong_of(signals@),
            mood@ == (MoodView {
                id: best,
                confidence: clamp_confidence(best_score as int),
                notes: notes_of(strong_view.subrange(0, j as int)),
            }),
        decreases strong.len() - j,
    {
        assert(strong_view.subrange(0, j + 1).drop_last() =~= strong_view.subrange(0, j as int));
        let s = strong[j];
        match &s.note {
            Some(n) => {
                mood = mood.with_note(n.as_str());
            },
            None => {},
        }
        j = j + 1;
    }
    assert(strong_view.subrange(0, j as int) =~= strong_view);
    mood
}

/// Classification confidence always lies in `[0, 1]`, whatever the collection.
pub proof fn law_confidence_in_range(sigs: Seq<SignalView>)
    ensures
        0 <= classify(sigs).confidence <= CONFIDENCE_ONE as int,
{
}

/// Classification is a function of the collection alone: equal collections
/// give equal moods, with equal id, confidence and notes.
pub proof fn law_classification_deterministic(a: Seq<SignalView>, b: Seq<SignalView>)
    requires
        a == b,
    ensures
        classify(a) == classify(b),
{
}

/// Raising the score of an indicator that a mood weighs positively, the
/// others fixed, never lowers that mood's score.
pub proof fn law_formula_monotone(
    m: MoodId,
    k: Indicator,
    f: spec_fn(Indicator) -> int,
    g: spec_fn(Indicator) -> int,
)
    requires
        lookup_bounded(f),
        lookup_bounded(g),
        weight(m, k) > 0,
        f(k) <= g(k),
        forall|j: Indicator| j != k ==> #[trigger] f(j) == g(j),
    ensures
        formula(m, f) <= formula(m, g),
{
    assert(f(Indicator::CadenceHigh) <= g(Indicator::CadenceHigh));
    assert(f(Indicator::CadenceLow) <= g(Indicator::CadenceLow));
    assert(f(Indicator::DiversityHigh) <= g(Indicator::DiversityHigh));
    assert(f(Indicator::DiversityLow) <= g(Indicator::DiversityLow));
    assert(f(Indicator::LateNight) <= g(Indicator::LateNight));
    assert(f(Indicator::Burst) <= g(Indicator::Burst));
    assert(f(Indicator::SteadyRhythm) <= g(Indicator::SteadyRhythm));
    assert(f(Indicator::TypoHigh) <= g(Indicator::TypoHigh));
    assert(f(Indicator::TypoMedium) <= g(Indicator::TypoMedium));
    assert(f(Indicator::TypoLow) <= g(Indicator::TypoLow));
    assert(f(Indicator::Repeats) <= g(Indicator::Repeats));
    assert(f(Indicator::Corrections) <= g(Indicator::Corrections));
    assert(f(Indicator::StatusLoop) <= g(Indicator::StatusLoop));
    assert(f(Indicator::GitHeavy) <= g(Indicator::GitHeavy));
    assert(f(Indicator::BuildCycle) <= g(Indicator::BuildCycle));
    assert(f(Indicator::ContextSwitching) <= g(Indicator::ContextSwitching));
    assert(f(Indicator::TimeSpread) <= g(Indicator::TimeSpread));
    assert(f(Indicator::WeekdayBound) <= g(Indicator::WeekdayBound));
}

/// The same, for signal collections: if two collections give the same score
/// for every indicator but one that the mood weighs positively, the one that
/// gives it the higher score gives the mood a score at least as high.
pub proof fn law_weighted_score_monotone(
    m: MoodId,
    k: Indicator,
    a: Seq<SignalView>,
    b: Seq<SignalView>,
)
    requires
        scores_bounded(a),
        scores_bounded(b),
        weight(m, k) > 0,
        score_of(a, k.spec_name()) <= score_of(b, k.spec_name()),
        forall|j: Indicator|
            j != k ==> #[trigger] score_of(a, j.spec_name()) == score_of(b, j.spec_name()),
    ensures
        weighted_score(m, a) <= weighted_score(m, b),
{
    let f = scores_in(a);
    let g = scores_in(b);
    assert forall|j: Indicator| j != k implies #[trigger] f(j) == g(j) by {}
    assert forall|j: Indicator| 0 <= #[trigger] f(j) <= 10000 by {
        lemma_first_with_id_bounded(a, j.spec_name());
    }
    assert forall|j: Indicator| 0 <= #[trigger] g(j) <= 10000 by {
        lemma_first_with_id_bounded(b, j.spec_name());
    }
    law_formula_monotone(m, k, f, g);
}

/// The winner's score is at least that of every candidate.
pub proof fn law_winner_is_maximal(sigs: Seq<SignalView>, c: int)
    requires
        0 <= c < 8,
    ensures
        weighted_score(candidates()[c], sigs) <= weighted_score(winner(sigs), sigs),
{
    lemma_best_upto_maximal(sigs, 8, c);
}

proof fn lemma_best_upto_maximal(sigs: Seq<SignalView>, n: int, c: int)
    requires
        0 <= c < n <= 8,
    ensures
        weighted_score(candidates()[c], sigs) <= weighted_score(best_upto(sigs, n), sigs),
    decreases n,
{
    if n > 1 && c < n - 1 {
        lemma_best_upto_maximal(sigs, n - 1, c);
    }
}

} // verus!
