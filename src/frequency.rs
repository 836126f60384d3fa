//! Signals of command cadence: commands per hour, bursts and steady rhythm.
use vstd::prelude::*;
use vstd::string::StringExecFns;
use crate::errors::{min_one, one};
use crate::history::HistoryEntry;
use crate::signals::{scores_bounded, lemma_ratio_bound, Signal, SignalCollection, SignalView};
use crate::text::{decimal, digit, push_decimal};

verus! {

/// The most records that one analysis takes, so that the rhythm statistics
/// fit in 128-bit integers.
pub const MAX_RECORDS: usize = 1048576;

/// Frequency signal analyzer.
pub struct FrequencySignals;

/// The Unix times of the entries that have a timestamp, in order.
pub open spec fn stamp_times(es: Seq<HistoryEntry>) -> Seq<i64>
    decreases es.len(),
{
    if es.len() == 0 {
        seq![]
    } else {
        match es.last().timestamp {
            Some(t) => stamp_times(es.drop_last()).push(t.unix),
            None => stamp_times(es.drop_last()),
        }
    }
}

pub open spec fn leq_i64() -> spec_fn(i64, i64) -> bool {
    |a: i64, b: i64| a <= b
}

/// The Unix times of the entries, in ascending order.
pub open spec fn sorted_times(es: Seq<HistoryEntry>) -> Seq<i64> {
    stamp_times(es).sort_by(leq_i64())
}

/// Relies on `slice::sort`: the same values, in ascending order.
#[verifier::external_body]
fn sort_ascending(v: &mut Vec<i64>)
    ensures
        final(v)@ == old(v)@.sort_by(leq_i64()),
        final(v)@.len() == old(v)@.len(),
{
    v.sort();
}

/// The gap before position `i` of a sorted sequence of times.
pub open spec fn gap(s: Seq<i64>, i: int) -> int {
    s[i] - s[i - 1]
}

/// How many of the gaps before positions `1..k` are shorter than ten seconds.
pub open spec fn short_gaps(s: Seq<i64>, k: int) -> int
    decreases k,
{
    if k <= 1 {
        0
    } else {
        short_gaps(s, k - 1) + if gap(s, k - 1) < 10 {
            1int
        } else {
            0
        }
    }
}

/// The gaps before positions `1..k` that lie strictly between 0 and an hour.
pub open spec fn steady_gaps(s: Seq<i64>, k: int) -> Seq<int>
    decreases k,
{
    if k <= 1 {
        seq![]
    } else if 0 < gap(s, k - 1) < 3600 {
        steady_gaps(s, k - 1).push(gap(s, k - 1))
    } else {
        steady_gaps(s, k - 1)
    }
}

pub open spec fn sum_of(gs: Seq<int>) -> int
    decreases gs.len(),
{
    if gs.len() == 0 {
        0
    } else {
        sum_of(gs.drop_last()) + gs.last()
    }
}

/// The sum of `(c * g - total)^2` over the gaps: `c^3` times their variance.
pub open spec fn deviation_of(gs: Seq<int>, c: int, total: int) -> int
    decreases gs.len(),
{
    if gs.len() == 0 {
        0
    } else {
        deviation_of(gs.drop_last(), c, total) + (c * gs.last() - total) * (c * gs.last() - total)
    }
}

/// The least `k` from `k0` on with `(k / 10000)^2 >= dev / scale`, that is the
/// coefficient of variation rounded up to basis points (at most 5000).
pub open spec fn cv_ceiling(scale: int, dev: int, k: int) -> int
    decreases 5000 - k,
{
    if k >= 5000 || k * k * scale >= 100000000 * dev {
        k
    } else {
        cv_ceiling(scale, dev, k + 1)
    }
}

/// Commands per hour, in tenths and rounded half up, over the span from the
/// first to the last time.
pub open spec fn cph_tenths(k: int, span: int) -> int {
    (72000 * k + span) / (2 * span)
}

/// Cadence signals: more than 30 or fewer than 5 commands per hour, with the
/// rate undefined below two timestamps or under six minutes of span.
pub open spec fn cadence_signals(s: Seq<i64>) -> Seq<SignalView> {
    let k = s.len() as int;
    let span = if k >= 2 {
        s[k - 1] - s[0]
    } else {
        0
    };
    let note = decimal((cph_tenths(k, span) / 10) as nat) + seq!['.', digit(
        (cph_tenths(k, span) % 10) as nat,
    )] + " commands/hour"@;
    if k < 2 || span < 360 {
        seq![]
    } else if 120 * k > span {
        one("cadence_high"@, min_one((720000 * k - 6000 * span) / span), Some(note))
    } else if 3600 * k < 5 * span {
        one("cadence_low"@, (10000 * span - 7200000 * k) / span, Some(note))
    } else {
        seq![]
    }
}

/// The share of gaps under ten seconds, where it exceeds 0.3 (three times at least).
pub open spec fn burst_signals(s: Seq<i64>) -> Seq<SignalView> {
    let k = s.len() as int;
    let b = short_gaps(s, k);
    if k >= 3 && 10 * b > 3 * (k - 1) {
        one("burst_pattern"@, 10000 * b / (k - 1), None)
    } else {
        seq![]
    }
}

/// One minus the coefficient of variation of the gaps under an hour, where
/// it exceeds 0.5 (five times and three such gaps at least).
pub open spec fn rhythm_signals(s: Seq<i64>) -> Seq<SignalView> {
    let gs = steady_gaps(s, s.len() as int);
    let c = gs.len() as int;
    let total = sum_of(gs);
    let dev = deviation_of(gs, c, total);
    if s.len() >= 5 && c >= 3 && 4 * dev < c * total * total {
        one("steady_rhythm"@, 10000 - cv_ceiling(c * total * total, dev, 0), None)
    } else {
        seq![]
    }
}

/// All frequency signals of a history.
pub open spec fn frequency_signals(es: Seq<HistoryEntry>) -> Seq<SignalView> {
    let s = sorted_times(es);
    if es.len() == 0 {
        seq![]
    } else {
        cadence_signals(s) + burst_signals(s) + rhythm_signals(s)
    }
}

proof fn lemma_stamp_times_len(es: Seq<HistoryEntry>)
    ensures
        stamp_times(es).len() <= es.len(),
    decreases es.len(),
{
    if es.len() > 0 {
        lemma_stamp_times_len(es.drop_last());
    }
}

impl FrequencySignals {
    /// Analyze frequency patterns in history entries.
    pub fn analyze(entries: &[HistoryEntry]) -> (r: SignalCollection)
        requires
            entries@.len() <= MAX_RECORDS,
        ensures
            r@ == frequency_signals(entries@),
            scores_bounded(r@),
    {
        let mut signals = SignalCollection::new();
        if entries.len() == 0 {
            return signals;
        }
        let times = Self::sorted_stamps(entries);
        signals.merge(Self::cadence(&times));
        signals.merge(Self::detect_bursts(&times));
        signals.merge(Self::detect_steady_rhythm(&times));
        assert(signals@ =~= frequency_signals(entries@));
        signals
    }

    /// The Unix times of the entries, in ascending order.
    fn sorted_stamps(entries: &[HistoryEntry]) -> (r: Vec<i64>)
        ensures
            r@ == sorted_times(entries@),
            r@.len() <= entries@.len(),
    {
        proof {
            lemma_stamp_times_len(entries@);
        }
        let mut r: Vec<i64> = Vec::new();
        let mut i: usize = 0;
        while i < entries.len()
            invariant
                i <= entries@.len(),
                r@ == stamp_times(entries@.subrange(0, i as int)),
            decreases entries.len() - i,
        {
            assert(entries@.subrange(0, i + 1).drop_last() =~= entries@.subrange(0, i as int));
            match entries[i].timestamp {
                Some(t) => r.push(t.unix),
                None => {},
            }
            i = i + 1;
        }
        assert(entries@.subrange(0, i as int) =~= entries@);
        sort_ascending(&mut r);
        r
    }

    /// The cadence signal, from the times in ascending order.
    fn cadence(times: &Vec<i64>) -> (r: SignalCollection)
        requires
            times@.len() <= MAX_RECORDS,
        ensures
            r@ == cadence_signals(times@),
            scores_bounded(r@),
    {
        let mut signals = SignalCollection::new();
        let k = times.len();
        if k < 2 {
            assert(signals@ =~= cadence_signals(times@));
            return signals;
        }
        let span_signed = times[k - 1] as i128 - times[0] as i128;
        if span_signed < 360 {
            assert(signals@ =~= cadence_signals(times@));
            return signals;
        }
        let span = span_signed as u128;
        let n = k as u128;
        let tenths = (72000 * n + span) / (2 * span);
        assert(72000 * n + span <= (100 * n + 1) * (2 * span)) by (nonlinear_arith)
            requires
                span >= 360,
                n >= 0,
        ;
        proof {
            lemma_ratio_bound(72000 * n + span, 2 * span as int, 100 * n + 1);
        }
        let mut note = String::new();
        push_decimal(&mut note, (tenths / 10) as u64);
        note.append(".");
        push_decimal(&mut note, (tenths % 10) as u64);
        note.append(" commands/hour");
        proof {
            reveal_strlit(".");
            assert(decimal((tenths % 10) as nat) =~= seq![digit((tenths % 10) as nat)]);
        }
        assert(note@ == decimal((cph_tenths(k as int, span as int) / 10) as nat) + seq![
            '.',
            digit((cph_tenths(k as int, span as int) % 10) as nat),
        ] + " commands/hour"@);
        if 120 * n > span {
            let s = (720000 * n - 6000 * span) / span;
            let score: u128 = if s > 10000 {
                10000
            } else {
                s
            };
            signals.add(Signal::new("cadence_high", score as i64).with_note(note));
        } else if 3600 * n < 5 * span {
            proof {
                lemma_ratio_bound(10000 * span - 7200000 * n, span as int, 10000);
            }
            signals.add(
                Signal::new("cadence_low", ((10000 * span - 7200000 * n) / span) as i64).with_note(
                    note,
                ),
            );
        }
        assert(signals@ =~= cadence_signals(times@));
        signals
    }

    /// The burst signal, from the times in ascending order.
    fn detect_bursts(times: &Vec<i64>) -> (r: SignalCollection)
        ensures
            r@ == burst_signals(times@),
            scores_bounded(r@),
    {
        let mut signals = SignalCollection::new();
        let k = times.len();
        if k < 3 {
            assert(signals@ =~= burst_signals(times@));
            return signals;
        }
        let mut burst_count: usize = 0;
        let mut i: usize = 1;
        while i < k
            invariant
                1 <= i <= k,
                k == times@.len(),
                burst_count < i,
                burst_count as int == short_gaps(times@, i as int),
            decreases k - i,
        {
            if (times[i] as i128) - (times[i - 1] as i128) < 10 {
                burst_count = burst_count + 1;
            }
            i = i + 1;
        }
        let b = burst_count as u128;
        let pairs = (k - 1) as u128;
        if 10 * b > 3 * pairs {
            proof {
                lemma_ratio_bound(10000 * b as int, pairs as int, 10000);
            }
            signals.add(Signal::new("burst_pattern", (10000 * b / pairs) as i64));
        }
        assert(signals@ =~= burst_signals(times@));
        signals
    }

    /// The gaps under an hour, from the times in ascending order.
    fn steady_gap_list(times: &Vec<i64>) -> (r: Vec<u32>)
        ensures
            r@.map_values(|g: u32| g as int) == steady_gaps(times@, times@.len() as int),
            r@.len() < times@.len() || times@.len() == 0,
            forall|j: int| 0 <= j < r@.len() ==> 0 < #[trigger] r@[j] < 3600,
    {
        let mut gaps: Vec<u32> = Vec::new();
        let k = times.len();
        if k == 0 {
            assert(gaps@.map_values(|g: u32| g as int) =~= steady_gaps(times@, 0));
            return gaps;
        }
        let mut i: usize = 1;
        assert(gaps@.map_values(|g: u32| g as int) =~= steady_gaps(times@, 1));
        while i < k
            invariant
                1 <= i <= k,
                k == times@.len(),
                gaps@.len() < i,
                gaps@.map_values(|g: u32| g as int) == steady_gaps(times@, i as int),
                forall|j: int| 0 <= j < gaps@.len() ==> 0 < #[trigger] gaps@[j] < 3600,
            decreases k - i,
        {
            let g = (times[i] as i128) - (times[i - 1] as i128);
            if 0 < g && g < 3600 {
                gaps.push(g as u32);
            }
            assert(gaps@.map_values(|g: u32| g as int) =~= steady_gaps(times@, i + 1));
            i = i + 1;
        }
        gaps
    }

    /// The steady-rhythm signal, from the times in ascending order.
    fn detect_steady_rhythm(times: &Vec<i64>) -> (r: SignalCollection)
        requires
            times@.len() <= MAX_RECORDS,
        ensures
            r@ == rhythm_signals(times@),
            scores_bounded(r@),
    {
        let mut signals = SignalCollection::new();
        if times.len() < 5 {
            assert(signals@ =~= rhythm_signals(times@));
            return signals;
        }
        let gaps = Self::steady_gap_list(times);
        let ghost gs = gaps@.map_values(|g: u32| g as int);
        let c = gaps.len();
        if c < 3 {
            assert(signals@ =~= rhythm_signals(times@));
            return signals;
        }
        let mut total: u128 = 0;
        let mut i: usize = 0;
        while i < c
            invariant
                i <= c,
                c == gaps@.len(),
                c <= MAX_RECORDS,
                gs == gaps@.map_values(|g: u32| g as int),
                forall|j: int| 0 <= j < gaps@.len() ==> 0 < #[trigger] gaps@[j] < 3600,
                total as int == sum_of(gs.subrange(0, i as int)),
                total <= 3600 * i,
            decreases c - i,
        {
            assert(gs.subrange(0, i + 1).drop_last() =~= gs.subrange(0, i as int));
            total = total + gaps[i] as u128;
            i = i + 1;
        }
        assert(gs.subrange(0, c as int) =~= gs);
        let cc = c as u128;
        let mut dev: u128 = 0;
        let mut j: usize = 0;
        while j < c
            invariant
                j <= c,
                c == gaps@.len(),
                c <= MAX_RECORDS,
                cc == c,
                gs == gaps@.map_values(|g: u32| g as int),
                forall|q: int| 0 <= q < gaps@.len() ==> 0 < #[trigger] gaps@[q] < 3600,
                total as int == sum_of(gs),
                total <= 3600 * c,
                dev as int == deviation_of(gs.subrange(0, j as int), c as int, total as int),
                dev <= j * 14249670695976960000,
            decreases c - j,
        {
            assert(gs.subrange(0, j + 1).drop_last() =~= gs.subrange(0, j as int));
            let g = gaps[j] as u128;
            assert(cc * g <= 3774873600) by (nonlinear_arith)
                requires
                    cc <= 1048576,
                    g < 3600,
            ;
            let a = cc * g;
            let d: u128 = if a >= total {
                a - total
            } else {
                total - a
            };
            assert(d * d <= 14249670695976960000) by (nonlinear_arith)
                requires
                    d <= 3774873600,
            ;
            assert(d * d == (c * gs[j as int] - total) * (c * gs[j as int] - total)) by (
            nonlinear_arith)
                requires
                    d == a - total || d == total - a,
                    a == c * gs[j as int],
            ;
            assert((j + 1) * 14249670695976960000 <= 14941862699704736808960000) by (nonlinear_arith)
                requires
                    j < c,
                    c <= 1048576,
            ;
            dev = dev + d * d;
            j = j + 1;
        }
        assert(gs.subrange(0, c as int) =~= gs);
        assert(total <= 3774873600);
        assert(cc * total <= 3958241859993600) by (nonlinear_arith)
            requires
                cc <= 1048576,
                total <= 3774873600,
        ;
        assert(cc * total * total <= 14941862699704736808960000) by (nonlinear_arith)
            requires
                cc * total <= 3958241859993600,
                total <= 3774873600,
        ;
        let scale = cc * total * total;
        if 4 * dev < scale {
            let cv = Self::cv_basis_points(scale, dev);
            signals.add(Signal::new("steady_rhythm", (10000 - cv) as i64));
        }
        assert(signals@ =~= rhythm_signals(times@));
        signals
    }

    /// The coefficient of variation rounded up to basis points, given the
    /// scaled squared mean and deviation, for a variation below one half.
    fn cv_basis_points(scale: u128, dev: u128) -> (r: u128)
        requires
            4 * dev < scale,
            scale <= 14941862699704736808960000,
        ensures
            r as int == cv_ceiling(scale as int, dev as int, 0),
            r <= 5000,
    {
        let mut k: u128 = 0;
        loop
            invariant
                k <= 5000,
                4 * dev < scale,
                scale <= 14941862699704736808960000,
                cv_ceiling(scale as int, dev as int, k as int) == cv_ceiling(
                    scale as int,
                    dev as int,
                    0,
                ),
            decreases 5000 - k,
        {
            assert(k * k <= 25000000) by (nonlinear_arith)
                requires
                    k <= 5000,
            ;
            assert(k * k * scale <= 25000000 * scale) by (nonlinear_arith)
                requires
                    k <= 5000,
                    scale >= 0,
            ;
            if k >= 5000 || k * k * scale >= 100000000 * dev {
                return k;
            }
            k = k + 1;
        }
    }
}

} // verus!
