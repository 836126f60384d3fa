//! The moods a history can be classified into.
use vstd::prelude::*;
use vstd::string::StringExecFns;

verus! {

/// Confidence of 1.0, in parts per million.
pub const CONFIDENCE_ONE: u32 = 1000000;

/// A mood whose confidence reaches this value (0.7) is confident.
pub const CONFIDENT: u32 = 700000;

/// The nine mood states.
#[derive(Clone, Copy, Debug, PartialEq, Eq, Structural, Hash, Default)]
pub enum MoodId {
    /// High cadence, high diversity, late-night activity
    FeralProductivity,
    /// Low cadence, high typo rate, repeated commands
    Exhausted,
    /// Steady rhythm, low error rate, systematic patterns
    Methodical,
    /// High diversity, burst patterns, unpredictable timing
    ChaoticNeutral,
    /// Steady patterns, form-like sequences, ritual adherence
    BureaucraticZen,
    /// Many small commands, no clear direction
    AmbientDrift,
    /// Repeated status checks, validation loops
    RecursiveDoubt,
    /// Fast bursts, high error rate, crisis management
    EmergencyMode,
    /// No mood detected or insufficient data
    #[default]
    Neutral,
}

/// The eight moods that can win a classification, in tie-break order.
pub open spec fn candidates() -> Seq<MoodId> {
    seq![
        MoodId::FeralProductivity,
        MoodId::Exhausted,
        MoodId::Methodical,
        MoodId::ChaoticNeutral,
        MoodId::BureaucraticZen,
        MoodId::AmbientDrift,
        MoodId::RecursiveDoubt,
        MoodId::EmergencyMode,
    ]
}

impl MoodId {
    pub open spec fn spec_label(self) -> Seq<char> {
        match self {
            MoodId::FeralProductivity => "feral productivity"@,
            MoodId::Exhausted => "exhausted"@,
            MoodId::Methodical => "methodical"@,
            MoodId::ChaoticNeutral => "chaotic neutral"@,
            MoodId::BureaucraticZen => "bureaucratic zen"@,
            MoodId::AmbientDrift => "ambient drift"@,
            MoodId::RecursiveDoubt => "recursive doubt"@,
            MoodId::EmergencyMode => "emergency mode"@,
            MoodId::Neutral => "neutral"@,
        }
    }

    /// The human-readable label.
    pub fn label(&self) -> (r: &'static str)
        ensures
            r@ == self.spec_label(),
    {
        match self {
            MoodId::FeralProductivity => "feral productivity",
            MoodId::Exhausted => "exhausted",
            MoodId::Methodical => "methodical",
            MoodId::ChaoticNeutral => "chaotic neutral",
            MoodId::BureaucraticZen => "bureaucratic zen",
            MoodId::AmbientDrift => "ambient drift",
            MoodId::RecursiveDoubt => "recursive doubt",
            MoodId::EmergencyMode => "emergency mode",
            MoodId::Neutral => "neutral",
        }
    }

    pub open spec fn spec_description(self) -> Seq<char> {
        match self {
            MoodId::FeralProductivity => "Operator moving faster than reflection allows"@,
            MoodId::Exhausted => "System functional, operator questionable"@,
            MoodId::Methodical => "Everything catalogued and verified"@,
            MoodId::ChaoticNeutral => "Entropy rising but controlled"@,
            MoodId::BureaucraticZen => "Perfect adherence to ritual without attachment to outcome"@,
            MoodId::AmbientDrift => "Present but unfocused"@,
            MoodId::RecursiveDoubt => "Uncertainty loops detected"@,
            MoodId::EmergencyMode => "Crisis management in progress"@,
            MoodId::Neutral => "Insufficient data for classification"@,
        }
    }

    /// A one-line description.
    pub fn description(&self) -> (r: &'static str)
        ensures
            r@ == self.spec_description(),
    {
        match self {
            MoodId::FeralProductivity => "Operator moving faster than reflection allows",
            MoodId::Exhausted => "System functional, operator questionable",
            MoodId::Methodical => "Everything catalogued and verified",
            MoodId::ChaoticNeutral => "Entropy rising but controlled",
            MoodId::BureaucraticZen => "Perfect adherence to ritual without attachment to outcome",
            MoodId::AmbientDrift => "Present but unfocused",
            MoodId::RecursiveDoubt => "Uncertainty loops detected",
            MoodId::EmergencyMode => "Crisis management in progress",
            MoodId::Neutral => "Insufficient data for classification",
        }
    }

    /// Every mood but `Neutral`, in tie-break order.
    pub fn all() -> (r: Vec<MoodId>)
        ensures
            r@ == candidates(),
    {
        let r = vec![
            MoodId::FeralProductivity,
            MoodId::Exhausted,
            MoodId::Methodical,
            MoodId::ChaoticNeutral,
            MoodId::BureaucraticZen,
            MoodId::AmbientDrift,
            MoodId::RecursiveDoubt,
            MoodId::EmergencyMode,
        ];
        assert(r@ =~= candidates());
        r
    }
}

/// A mood, as mathematical values.
pub struct MoodView {
    pub id: MoodId,
    pub confidence: int,
    pub notes: Seq<Seq<char>>,
}

/// A complete assessment: the mood, its confidence in parts per million, and notes.
#[derive(Clone, Debug)]
pub struct Mood {
    pub id: MoodId,
    pub confidence: u32,
    pub notes: Vec<String>,
}

impl View for Mood {
    type V = MoodView;

    open spec fn view(&self) -> MoodView {
        MoodView {
            id: self.id,
            confidence: self.confidence as int,
            notes: self.notes@.map_values(|n: String| n@),
        }
    }
}

/// A confidence clamped into `[0, CONFIDENCE_ONE]`.
pub open spec fn clamp_confidence(x: int) -> int {
    if x < 0 {
        0
    } else if x > CONFIDENCE_ONE as int {
        CONFIDENCE_ONE as int
    } else {
        x
    }
}

impl Mood {
    /// A mood without notes; the confidence is clamped into `[0, CONFIDENCE_ONE]`.
    pub fn new(id: MoodId, confidence: i64) -> (r: Mood)
        ensures
            r@ == (MoodView { id, confidence: clamp_confidence(confidence as int), notes: seq![] }),
    {
        let c: u32 = if confidence < 0 {
            0
        } else if confidence > CONFIDENCE_ONE as i64 {
            CONFIDENCE_ONE
        } else {
            confidence as u32
        };
        let r = Mood { id, confidence: c, notes: Vec::new() };
        assert(r@.notes =~= Seq::<Seq<char>>::empty());
        r
    }

    /// The neutral mood with confidence 0.
    pub fn neutral() -> (r: Mood)
        ensures
            r@ == (MoodView { id: MoodId::Neutral, confidence: 0, notes: seq![] }),
    {
        Mood::new(MoodId::Neutral, 0)
    }

    /// The same mood with one more note at the end.
    pub fn with_note(self, note: &str) -> (r: Mood)
        ensures
            r@ == (MoodView { notes: self@.notes.push(note@), ..self@ }),
    {
        let mut r = self;
        r.notes.push(String::from_str(note));
        assert(r@.notes =~= self@.notes.push(note@));
        r
    }

    /// The same mood with the given notes appended in order.
    pub fn with_notes(self, notes: Vec<String>) -> (r: Mood)
        ensures
            r@ == (MoodView { notes: self@.notes + notes@.map_values(|n: String| n@), ..self@ }),
    {
        let mut r = self;
        let ghost added = notes@.map_values(|n: String| n@);
        let mut notes = notes;
        r.notes.append(&mut notes);
        assert(r@.notes =~= self@.notes + added);
        r
    }

    /// Whether the confidence reaches 0.7.
    pub fn is_confident(&self) -> (r: bool)
        ensures
            r == (self.confidence >= CONFIDENT),
    {
        self.confidence >= CONFIDENT
    }

    /// Whether this is the neutral mood.
    pub fn is_neutral(&self) -> (r: bool)
        ensures
            r == (self.id == MoodId::Neutral),
    {
        self.id == MoodId::Neutral
    }

    /// The label of the mood.
    pub fn label(&self) -> (r: &'static str)
        ensures
            r@ == self.id.spec_label(),
    {
        self.id.label()
    }
}

} // verus!
