//! How a mood colours the wording of output: five levels from 0 to 1, in
//! basis points.
use vstd::prelude::*;
use crate::moods::MoodId;
use crate::signals::{clamp_score, SCORE_ONE};

verus! {

/// Tone levels, each in basis points (0 to `SCORE_ONE`).
#[derive(Clone, Copy, Debug, PartialEq, Eq, Structural)]
pub struct Tone {
    /// Terse (0) to verbose (1)
    pub verbosity: u32,
    /// Casual (0) to bureaucratic (1)
    pub formality: u32,
    /// Orderly (0) to unpredictable (1)
    pub chaos: u32,
    /// Lethargic (0) to manic (1)
    pub energy: u32,
    /// Uncertain (0) to absolute (1)
    pub certainty: u32,
}

fn clamp(x: i64) -> (r: u32)
    ensures
        r as int == clamp_score(x as int),
{
    if x < 0 {
        0
    } else if x > SCORE_ONE as i64 {
        SCORE_ONE
    } else {
        x as u32
    }
}

/// The levels of each mood's tone, in basis points.
pub open spec fn tone_levels(mood: MoodId) -> (int, int, int, int, int) {
    match mood {
        MoodId::FeralProductivity => (6000, 3000, 5000, 9000, 4000),
        MoodId::Exhausted => (2000, 5000, 2000, 1000, 3000),
        MoodId::Methodical => (8000, 8000, 1000, 5000, 9000),
        MoodId::ChaoticNeutral => (5000, 3000, 9000, 6000, 3000),
        MoodId::BureaucraticZen => (7000, 10000, 1000, 4000, 5000),
        MoodId::AmbientDrift => (4000, 4000, 3000, 3000, 2000),
        MoodId::RecursiveDoubt => (6000, 5000, 4000, 4000, 1000),
        MoodId::EmergencyMode => (3000, 2000, 7000, 8000, 2000),
        MoodId::Neutral => (5000, 5000, 2000, 5000, 5000),
    }
}

impl Tone {
    pub open spec fn levels(self) -> (int, int, int, int, int) {
        (
            self.verbosity as int,
            self.formality as int,
            self.chaos as int,
            self.energy as int,
            self.certainty as int,
        )
    }

    /// A tone with each level clamped into `[0, 1]`.
    pub fn new(verbosity: i64, formality: i64, chaos: i64, energy: i64, certainty: i64) -> (r: Tone)
        ensures
            r.levels() == (
                clamp_score(verbosity as int),
                clamp_score(formality as int),
                clamp_score(chaos as int),
                clamp_score(energy as int),
                clamp_score(certainty as int),
            ),
    {
        Tone {
            verbosity: clamp(verbosity),
            formality: clamp(formality),
            chaos: clamp(chaos),
            energy: clamp(energy),
            certainty: clamp(certainty),
        }
    }

    /// The tone of a mood; the neutral tone for `Neutral`.
    pub fn for_mood(mood: MoodId) -> (r: Tone)
        ensures
            r.levels() == tone_levels(mood),
    {
        match mood {
            MoodId::FeralProductivity => Tone::new(6000, 3000, 5000, 9000, 4000),
            MoodId::Exhausted => Tone::new(2000, 5000, 2000, 1000, 3000),
            MoodId::Methodical => Tone::new(8000, 8000, 1000, 5000, 9000),
            MoodId::ChaoticNeutral => Tone::new(5000, 3000, 9000, 6000, 3000),
            MoodId::BureaucraticZen => Tone::new(7000, 10000, 1000, 4000, 5000),
            MoodId::AmbientDrift => Tone::new(4000, 4000, 3000, 3000, 2000),
            MoodId::RecursiveDoubt => Tone::new(6000, 5000, 4000, 4000, 1000),
            MoodId::EmergencyMode => Tone::new(3000, 2000, 7000, 8000, 2000),
            MoodId::Neutral => Tone::neutral(),
        }
    }

    /// The neutral tone: middle of everything, little chaos.
    pub fn neutral() -> (r: Tone)
        ensures
            r.levels() == tone_levels(MoodId::Neutral),
    {
        Tone::new(5000, 5000, 2000, 5000, 5000)
    }

    /// Low energy (below 0.3): keep output short.
    pub fn should_truncate(&self) -> (r: bool)
        ensures
            r == (self.energy < 3000),
    {
        self.energy < 3000
    }

    /// High verbosity (above 0.7): add detail.
    pub fn should_elaborate(&self) -> (r: bool)
        ensures
            r == (self.verbosity > 7000),
    {
        self.verbosity > 7000
    }

    /// High formality (above 0.6): use bureaucratic language.
    pub fn should_be_formal(&self) -> (r: bool)
        ensures
            r == (self.formality > 6000),
    {
        self.formality > 6000
    }

    /// High chaos (above 0.5): apply chaos effects.
    pub fn should_inject_chaos(&self) -> (r: bool)
        ensures
            r == (self.chaos > 5000),
    {
        self.chaos > 5000
    }
}

/// Phrases that vary with the tone.
pub struct Phrases;

impl Phrases {
    pub open spec fn spec_status_prefix(tone: Tone) -> Seq<char> {
        if tone.formality > 8000 {
            "OFFICIAL STATUS REPORT:"@
        } else if tone.energy < 3000 {
            "Status:"@
        } else if tone.chaos > 6000 {
            "STATUS (probably):"@
        } else {
            "STATUS:"@
        }
    }

    /// The prefix of a status line.
    pub fn status_prefix(tone: &Tone) -> (r: &'static str)
        ensures
            r@ == Self::spec_status_prefix(*tone),
    {
        if tone.formality > 8000 {
            "OFFICIAL STATUS REPORT:"
        } else if tone.energy < 3000 {
            "Status:"
        } else if tone.chaos > 6000 {
            "STATUS (probably):"
        } else {
            "STATUS:"
        }
    }

    pub open spec fn spec_confidence_qualifier(tone: Tone, confidence: int) -> Seq<char> {
        if confidence > 900000 {
            if tone.certainty > 7000 {
                "confirmed"@
            } else {
                "allegedly confirmed"@
            }
        } else if confidence > 700000 {
            if tone.formality > 6000 {
                "assessed with reasonable certainty"@
            } else {
                "probably"@
            }
        } else if confidence > 500000 {
            if tone.chaos > 5000 {
                "maybe? who knows"@
            } else {
                "tentatively"@
            }
        } else if tone.certainty < 3000 {
            "speculatively at best"@
        } else {
            "uncertain"@
        }
    }

    /// A qualifier for a confidence given in parts per million.
    pub fn confidence_qualifier(tone: &Tone, confidence: u32) -> (r: &'static str)
        ensures
            r@ == Self::spec_confidence_qualifier(*tone, confidence as int),
    {
        if confidence > 900000 {
            if tone.certainty > 7000 {
                "confirmed"
            } else {
                "allegedly confirmed"
            }
        } else if confidence > 700000 {
            if tone.formality > 6000 {
                "assessed with reasonable certainty"
            } else {
                "probably"
            }
        } else if confidence > 500000 {
            if tone.chaos > 5000 {
                "maybe? who knows"
            } else {
                "tentatively"
            }
        } else if tone.certainty < 3000 {
            "speculatively at best"
        } else {
            "uncertain"
        }
    }

    pub open spec fn spec_ending(tone: Tone) -> Seq<char> {
        if tone.formality > 8000 {
            "End of report. No action required."@
        } else if tone.energy < 3000 {
            "[transmission ends]"@
        } else if tone.chaos > 7000 {
            "...or does it?"@
        } else {
            ""@
        }
    }

    /// The closing phrase.
    pub fn ending(tone: &Tone) -> (r: &'static str)
        ensures
            r@ == Self::spec_ending(*tone),
    {
        if tone.formality > 8000 {
            "End of report. No action required."
        } else if tone.energy < 3000 {
            "[transmission ends]"
        } else if tone.chaos > 7000 {
            "...or does it?"
        } else {
            ""
        }
    }
}

} // verus!
