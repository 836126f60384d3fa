//! Scored observations about a command history, and the collection that
//! gathers them.
//!
//! Scores are fixed-point: `SCORE_ONE` basis points stand for 1.0.
use vstd::prelude::*;
use vstd::string::StringExecFns;

verus! {

/// A score of 1.0, in basis points.
pub const SCORE_ONE: u32 = 10000;

/// Signals at or above this score (0.7) are strong.
pub const STRONG_SCORE: u32 = 7000;

/// Signals below this score (0.3) are weak.
pub const WEAK_SCORE: u32 = 3000;

/// A score clamped into `[0, SCORE_ONE]`.
pub open spec fn clamp_score(x: int) -> int {
    if x < 0 {
        0
    } else if x > SCORE_ONE as int {
        SCORE_ONE as int
    } else {
        x
    }
}

/// A quotient is at most `cap` when the dividend is at most `cap` times the divisor.
pub proof fn lemma_ratio_bound(x: int, n: int, cap: int)
    requires
        0 <= x <= cap * n,
        n > 0,
    ensures
        0 <= x / n <= cap,
{
    assert(0 <= x / n <= cap) by (nonlinear_arith)
        requires
            0 <= x <= cap * n,
            n > 0,
    ;
}

/// What a signal is, as mathematical values.
pub struct SignalView {
    pub id: Seq<char>,
    pub score: int,
    pub note: Option<Seq<char>>,
}

/// A detected signal: an identifier, a score in basis points, an optional note.
#[derive(Clone, Debug)]
pub struct Signal {
    pub id: String,
    pub score: u32,
    pub note: Option<String>,
}

pub open spec fn note_view(note: Option<String>) -> Option<Seq<char>> {
    match note {
        Some(n) => Some(n@),
        None => None,
    }
}

impl View for Signal {
    type V = SignalView;

    open spec fn view(&self) -> SignalView {
        SignalView { id: self.id@, score: self.score as int, note: note_view(self.note) }
    }
}

impl Signal {
    /// Creates a signal without a note; the score is clamped into `[0, SCORE_ONE]`.
    pub fn new(id: &str, score: i64) -> (r: Signal)
        ensures
            r@ == (SignalView { id: id@, score: clamp_score(score as int), note: None }),
            r.score <= SCORE_ONE,
    {
        let clamped: u32 = if score < 0 {
            0
        } else if score > SCORE_ONE as i64 {
            SCORE_ONE
        } else {
            score as u32
        };
        Signal { id: String::from_str(id), score: clamped, note: None }
    }

    /// The same signal with the given note.
    pub fn with_note(self, note: String) -> (r: Signal)
        ensures
            r@ == (SignalView { note: Some(note@), ..self@ }),
    {
        Signal { note: Some(note), ..self }
    }

    /// Whether the score is at least 0.7.
    pub fn is_strong(&self) -> (r: bool)
        ensures
            r == (self.score >= STRONG_SCORE),
    {
        self.score >= STRONG_SCORE
    }

    /// Whether the score is below 0.3.
    pub fn is_weak(&self) -> (r: bool)
        ensures
            r == (self.score < WEAK_SCORE),
    {
        self.score < WEAK_SCORE
    }
}

/// Every score of the sequence lies in `[0, SCORE_ONE]`.
pub open spec fn scores_bounded(sigs: Seq<SignalView>) -> bool {
    forall|i: int| 0 <= i < sigs.len() ==> 0 <= #[trigger] sigs[i].score <= SCORE_ONE as int
}

/// The first signal of the sequence with the given identifier.
pub open spec fn first_with_id(sigs: Seq<SignalView>, id: Seq<char>) -> Option<SignalView>
    decreases sigs.len(),
{
    if sigs.len() == 0 {
        None
    } else {
        match first_with_id(sigs.drop_last(), id) {
            Some(s) => Some(s),
            None => if sigs.last().id == id {
                Some(sigs.last())
            } else {
                None
            },
        }
    }
}

/// The score of the first signal with the given identifier, 0 if there is none.
pub open spec fn score_of(sigs: Seq<SignalView>, id: Seq<char>) -> int {
    match first_with_id(sigs, id) {
        Some(s) => s.score,
        None => 0,
    }
}

/// The signals of the sequence whose score is strong, in order.
pub open spec fn strong_of(sigs: Seq<SignalView>) -> Seq<SignalView>
    decreases sigs.len(),
{
    if sigs.len() == 0 {
        seq![]
    } else if sigs.last().score >= STRONG_SCORE as int {
        strong_of(sigs.drop_last()).push(sigs.last())
    } else {
        strong_of(sigs.drop_last())
    }
}

pub proof fn lemma_first_with_id_bounded(sigs: Seq<SignalView>, id: Seq<char>)
    requires
        scores_bounded(sigs),
    ensures
        0 <= score_of(sigs, id) <= SCORE_ONE as int,
    decreases sigs.len(),
{
    if sigs.len() > 0 {
        lemma_first_with_id_bounded(sigs.drop_last(), id);
    }
}

/// All the signals detected in one analysis, in detection order.
#[derive(Clone, Debug)]
pub struct SignalCollection {
    pub signals: Vec<Signal>,
}

impl View for SignalCollection {
    type V = Seq<SignalView>;

    open spec fn view(&self) -> Seq<SignalView> {
        self.signals@.map_values(|s: Signal| s@)
    }
}

impl SignalCollection {
    /// An empty collection.
    pub fn new() -> (r: SignalCollection)
        ensures
            r@ == Seq::<SignalView>::empty(),
            scores_bounded(r@),
    {
        let r = SignalCollection { signals: Vec::new() };
        assert(r@ =~= Seq::<SignalView>::empty());
        r
    }

    /// Appends a signal.
    pub fn add(&mut self, signal: Signal)
        ensures
            final(self)@ == old(self)@.push(signal@),
            scores_bounded(old(self)@) && signal.score <= SCORE_ONE ==> scores_bounded(final(self)@),
    {
        let ghost v = signal@;
        self.signals.push(signal);
        assert(self@ =~= old(self)@.push(v));
    }

    /// Appends a signal when its score reaches the threshold.
    pub fn add_if_significant(&mut self, signal: Signal, threshold: u32)
        ensures
            signal.score >= threshold ==> final(self)@ == old(self)@.push(signal@),
            signal.score < threshold ==> final(self)@ == old(self)@,
    {
        if signal.score >= threshold {
            self.add(signal);
        }
    }

    /// The first signal with the given identifier.
    pub fn get(&self, id: &str) -> (r: Option<&Signal>)
        ensures
            match r {
                Some(s) => first_with_id(self@, id@) == Some(s@),
                None => first_with_id(self@, id@) is None,
            },
    {
        let key = String::from_str(id);
        let mut i: usize = 0;
        while i < self.signals.len()
            invariant
                i <= self.signals.len(),
                key@ == id@,
                first_with_id(self@.subrange(0, i as int), id@) is None,
            decreases self.signals.len() - i,
        {
            assert(self@.subrange(0, i + 1).drop_last() =~= self@.subrange(0, i as int));
            if self.signals[i].id == key {
                assert(first_with_id(self@.subrange(0, i + 1), id@) == Some(self@[i as int]));
                proof { lemma_first_in_prefix(self@, id@, i + 1); }
                return Some(&self.signals[i]);
            }
            i = i + 1;
        }
        assert(self@.subrange(0, i as int) =~= self@);
        None
    }

    /// The score of the first signal with the given identifier, 0 if there is none.
    pub fn score(&self, id: &str) -> (r: u32)
        ensures
            r as int == score_of(self@, id@),
    {
        match self.get(id) {
            Some(s) => s.score,
            None => 0,
        }
    }

    /// The strong signals, in order.
    pub fn strong_signals(&self) -> (r: Vec<&Signal>)
        ensures
            r@.map_values(|s: &Signal| s@) == strong_of(self@),
    {
        let mut r: Vec<&Signal> = Vec::new();
        let mut i: usize = 0;
        while i < self.signals.len()
            invariant
                i <= self.signals.len(),
                r@.map_values(|s: &Signal| s@) == strong_of(self@.subrange(0, i as int)),
            decreases self.signals.len() - i,
        {
            assert(self@.subrange(0, i + 1).drop_last() =~= self@.subrange(0, i as int));
            let s = &self.signals[i];
            if s.is_strong() {
                r.push(s);
            }
            assert(r@.map_values(|s: &Signal| s@) =~= strong_of(self@.subrange(0, i + 1)));
            i = i + 1;
        }
        assert(self@.subrange(0, i as int) =~= self@);
        r
    }

    /// Appends the other collection's signals, keeping their order.
    pub fn merge(&mut self, other: SignalCollection)
        ensures
            final(self)@ == old(self)@ + other@,
            scores_bounded(old(self)@) && scores_bounded(other@) ==> scores_bounded(final(self)@),
    {
        let ghost added = other@;
        let mut other = other;
        self.signals.append(&mut other.signals);
        assert(self@ =~= old(self)@ + added);
    }
}

/// The first match in a prefix stays the first match in the whole sequence.
pub proof fn lemma_first_in_prefix(sigs: Seq<SignalView>, id: Seq<char>, n: int)
    requires
        0 <= n <= sigs.len(),
        first_with_id(sigs.subrange(0, n), id) is Some,
    ensures
        first_with_id(sigs, id) == first_with_id(sigs.subrange(0, n), id),
    decreases sigs.len() - n,
{
    if n < sigs.len() {
        assert(sigs.subrange(0, n + 1).drop_last() =~= sigs.subrange(0, n));
        lemma_first_in_prefix(sigs, id, n + 1);
    } else {
        assert(sigs.subrange(0, n) =~= sigs);
    }
}

} // verus!
