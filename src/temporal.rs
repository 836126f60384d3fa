//! Signals of when commands run: hour of day and day of week.
use vstd::prelude::*;
use vstd::string::StringExecFns;
use crate::errors::{min_one, one};
use crate::history::{early_hour, late_hour, lemma_clock_ranges, lunch_hour, HistoryEntry, Timestamp};
use crate::signals::{scores_bounded, lemma_ratio_bound, Signal, SignalCollection, SignalView};
use crate::text::{decimal, push_decimal, push_two_digits, two_digits};

verus! {

/// Temporal signal analyzer.
pub struct TemporalSignals;

/// Every timestamp of the entries is well formed.
pub open spec fn stamps_wf(es: Seq<HistoryEntry>) -> bool {
    forall|i: int| 0 <= i < es.len() ==> (#[trigger] es[i].timestamp matches Some(t) ==> t.wf())
}

/// The timestamps of the entries that have one, in order.
pub open spec fn stamped(es: Seq<HistoryEntry>) -> Seq<Timestamp>
    decreases es.len(),
{
    if es.len() == 0 {
        seq![]
    } else {
        match es.last().timestamp {
            Some(t) => stamped(es.drop_last()).push(t),
            None => stamped(es.drop_last()),
        }
    }
}

/// How many timestamps fall in an hour that satisfies `pred`.
pub open spec fn count_hours(ts: Seq<Timestamp>, pred: spec_fn(int) -> bool) -> int
    decreases ts.len(),
{
    if ts.len() == 0 {
        0
    } else {
        count_hours(ts.drop_last(), pred) + if pred(ts.last().hour as int) {
            1int
        } else {
            0
        }
    }
}

/// How many timestamps fall on a Saturday or Sunday.
pub open spec fn count_weekend(ts: Seq<Timestamp>) -> int
    decreases ts.len(),
{
    if ts.len() == 0 {
        0
    } else {
        count_weekend(ts.drop_last()) + if ts.last().weekday >= 6 {
            1int
        } else {
            0
        }
    }
}

/// How many timestamps fall in hour `h`.
pub open spec fn hour_count(ts: Seq<Timestamp>, h: int) -> int {
    count_hours(ts, |x: int| x == h)
}

/// The highest hour count among hours below `k`.
pub open spec fn max_hour_upto(ts: Seq<Timestamp>, k: int) -> int
    decreases k,
{
    if k <= 0 {
        0
    } else {
        let prev = max_hour_upto(ts, k - 1);
        if hour_count(ts, k - 1) > prev {
            hour_count(ts, k - 1)
        } else {
            prev
        }
    }
}

/// The hours below `k` whose count is `top` (a positive count), in order.
pub open spec fn peak_hours_upto(ts: Seq<Timestamp>, top: int, k: int) -> Seq<int>
    decreases k,
{
    if k <= 0 {
        seq![]
    } else if top > 0 && hour_count(ts, k - 1) == top {
        peak_hours_upto(ts, top, k - 1).push(k - 1)
    } else {
        peak_hours_upto(ts, top, k - 1)
    }
}

/// How many hours below `k` have at least one timestamp.
pub open spec fn active_hours_upto(ts: Seq<Timestamp>, k: int) -> int
    decreases k,
{
    if k <= 0 {
        0
    } else {
        active_hours_upto(ts, k - 1) + if hour_count(ts, k - 1) > 0 {
            1int
        } else {
            0
        }
    }
}

/// Hours written as `HH:00`, separated by `, `.
pub open spec fn hour_list(hs: Seq<int>) -> Seq<char>
    decreases hs.len(),
{
    if hs.len() == 0 {
        seq![]
    } else if hs.len() == 1 {
        two_digits(hs[0] as nat) + ":00"@
    } else {
        hour_list(hs.drop_last()) + ", "@ + two_digits(hs.last() as nat) + ":00"@
    }
}

/// Signals of time of day and of the weekend.
pub open spec fn clock_signals(ts: Seq<Timestamp>) -> Seq<SignalView> {
    let m = ts.len() as int;
    let late = count_hours(ts, |h: int| late_hour(h));
    let early = count_hours(ts, |h: int| early_hour(h));
    let lunch = count_hours(ts, |h: int| lunch_hour(h));
    let w = count_weekend(ts);
    (if 10 * late > m {
        one(
            "late_night_orbit"@,
            10000 * late / m,
            Some(decimal((100 * late / m) as nat) + "% of commands after 22:00"@),
        )
    } else {
        seq![]
    }) + (if 10 * early > m {
        one(
            "early_morning_surge"@,
            10000 * early / m,
            Some(decimal((100 * early / m) as nat) + "% of commands before 07:00"@),
        )
    } else {
        seq![]
    }) + (if 50 * lunch < m && m > 20 {
        one("lunch_void"@, 8000, None)
    } else {
        seq![]
    }) + (if 5 * w > 2 * m {
        one(
            "weekend_warrior"@,
            min_one((20000 * w - 5600 * m) / m),
            Some("Above-average weekend activity"@),
        )
    } else if 20 * w < 3 * m && m > 50 {
        one("weekday_bound"@, (5600 * m - 20000 * w) / m, Some("Below-average weekend activity"@))
    } else {
        seq![]
    })
}

/// Signals of the hour histogram: the peak hours, and how concentrated or
/// spread the activity is.
pub open spec fn hour_signals(ts: Seq<Timestamp>) -> Seq<SignalView> {
    let m = ts.len() as int;
    let top = max_hour_upto(ts, 24);
    let active = active_hours_upto(ts, 24);
    (if top > 0 && 20 * top > 3 * m {
        one(
            "peak_hours"@,
            10000 * top / m,
            Some("Most active: "@ + hour_list(peak_hours_upto(ts, top, 24))),
        )
    } else {
        seq![]
    }) + (if 5 * active < 48 {
        one("time_concentrated"@, 10000 * (24 - active) / 24, None)
    } else if 10 * active > 168 {
        one("time_spread"@, 10000 * active / 24, None)
    } else {
        seq![]
    })
}

/// All temporal signals of a history.
pub open spec fn temporal_signals(es: Seq<HistoryEntry>) -> Seq<SignalView> {
    let ts = stamped(es);
    if ts.len() == 0 {
        seq![]
    } else {
        clock_signals(ts) + hour_signals(ts)
    }
}

proof fn lemma_stamped_wf(es: Seq<HistoryEntry>)
    requires
        stamps_wf(es),
    ensures
        forall|i: int| 0 <= i < stamped(es).len() ==> (#[trigger] stamped(es)[i]).wf(),
        stamped(es).len() <= es.len(),
    decreases es.len(),
{
    if es.len() > 0 {
        assert(stamps_wf(es.drop_last())) by {
            assert forall|i: int| 0 <= i < es.drop_last().len() implies (
            #[trigger] es.drop_last()[i].timestamp matches Some(t) ==> t.wf()) by {
                assert(es.drop_last()[i] == es[i]);
            }
        }
        lemma_stamped_wf(es.drop_last());
        assert(es[es.len() - 1] == es.last());
    }
}

impl TemporalSignals {
    /// Analyze temporal patterns in history entries.
    pub fn analyze(entries: &[HistoryEntry]) -> (r: SignalCollection)
        requires
            stamps_wf(entries@),
        ensures
            r@ == temporal_signals(entries@),
            scores_bounded(r@),
    {
        let mut signals = SignalCollection::new();
        let stamps = Self::timestamps(entries);
        if stamps.len() == 0 {
            return signals;
        }
        proof {
            lemma_stamped_wf(entries@);
        }
        let ghost ts = stamps@;
        let m = stamps.len() as u128;
        let late = Self::count_matching(&stamps, 0) as u128;
        let early = Self::count_matching(&stamps, 1) as u128;
        let lunch = Self::count_matching(&stamps, 2) as u128;
        let weekend = Self::count_matching(&stamps, 3) as u128;
        proof {
            lemma_ratio_bound(100 * late as int, m as int, 100);
            lemma_ratio_bound(10000 * late as int, m as int, 10000);
            lemma_ratio_bound(100 * early as int, m as int, 100);
            lemma_ratio_bound(10000 * early as int, m as int, 10000);
        }
        if 10 * late > m {
            let mut note = String::new();
            push_decimal(&mut note, (100 * late / m) as u64);
            note.append("% of commands after 22:00");
            signals.add(Signal::new("late_night_orbit", (10000 * late / m) as i64).with_note(note));
        }
        if 10 * early > m {
            let mut note = String::new();
            push_decimal(&mut note, (100 * early / m) as u64);
            note.append("% of commands before 07:00");
            signals.add(
                Signal::new("early_morning_surge", (10000 * early / m) as i64).with_note(note),
            );
        }
        if 50 * lunch < m && m > 20 {
            signals.add(Signal::new("lunch_void", 8000));
        }
        if 5 * weekend > 2 * m {
            proof {
                lemma_ratio_bound(20000 * weekend - 5600 * m, m as int, 20000);
            }
            let s = (20000 * weekend - 5600 * m) / m;
            signals.add(
                Signal::new("weekend_warrior", s as i64).with_note(
                    String::from_str("Above-average weekend activity"),
                ),
            );
        } else if 20 * weekend < 3 * m && m > 50 {
            proof {
                lemma_ratio_bound(5600 * m - 20000 * weekend, m as int, 5600);
            }
            signals.add(
                Signal::new("weekday_bound", ((5600 * m - 20000 * weekend) / m) as i64).with_note(
                    String::from_str("Below-average weekend activity"),
                ),
            );
        }
        assert(signals@ =~= clock_signals(ts));
        let hours = Self::analyze_hour_distribution(&stamps);
        signals.merge(hours);
        assert(signals@ =~= temporal_signals(entries@));
        signals
    }

    fn timestamps(entries: &[HistoryEntry]) -> (r: Vec<Timestamp>)
        ensures
            r@ == stamped(entries@),
    {
        let mut r: Vec<Timestamp> = Vec::new();
        let mut i: usize = 0;
        while i < entries.len()
            invariant
                i <= entries@.len(),
                r@ == stamped(entries@.subrange(0, i as int)),
            decreases entries.len() - i,
        {
            assert(entries@.subrange(0, i + 1).drop_last() =~= entries@.subrange(0, i as int));
            match entries[i].timestamp {
                Some(t) => r.push(t),
                None => {},
            }
            i = i + 1;
        }
        assert(entries@.subrange(0, i as int) =~= entries@);
        r
    }

    /// Counts the timestamps that are late (0), early (1), at lunch (2) or on
    /// the weekend (3).
    fn count_matching(stamps: &Vec<Timestamp>, which: u8) -> (r: usize)
        requires
            which < 4,
        ensures
            which == 0 ==> r as int == count_hours(stamps@, |h: int| late_hour(h)),
            which == 1 ==> r as int == count_hours(stamps@, |h: int| early_hour(h)),
            which == 2 ==> r as int == count_hours(stamps@, |h: int| lunch_hour(h)),
            which == 3 ==> r as int == count_weekend(stamps@),
            r <= stamps@.len(),
    {
        let ghost pred = if which == 0 {
            |h: int| late_hour(h)
        } else if which == 1 {
            |h: int| early_hour(h)
        } else {
            |h: int| lunch_hour(h)
        };
        let mut count: usize = 0;
        let mut i: usize = 0;
        while i < stamps.len()
            invariant
                i <= stamps@.len(),
                count <= i,
                which < 4,
                which == 0 ==> pred == |h: int| late_hour(h),
                which == 1 ==> pred == |h: int| early_hour(h),
                which == 2 ==> pred == |h: int| lunch_hour(h),
                which < 3 ==> count as int == count_hours(stamps@.subrange(0, i as int), pred),
                which == 3 ==> count as int == count_weekend(stamps@.subrange(0, i as int)),
            decreases stamps.len() - i,
        {
            assert(stamps@.subrange(0, i + 1).drop_last() =~= stamps@.subrange(0, i as int));
            let h = stamps[i].hour;
            let hit = if which == 0 {
                !(4 <= h && h < 22)
            } else if which == 1 {
                5 <= h && h <= 7
            } else if which == 2 {
                12 <= h && h <= 13
            } else {
                stamps[i].weekday >= 6
            };
            if hit {
                count = count + 1;
            }
            i = i + 1;
        }
        assert(stamps@.subrange(0, i as int) =~= stamps@);
        count
    }

    /// How many timestamps fall in each hour.
    fn hour_histogram(stamps: &Vec<Timestamp>) -> (r: Vec<usize>)
        requires
            forall|i: int| 0 <= i < stamps@.len() ==> (#[trigger] stamps@[i]).wf(),
        ensures
            r@.len() == 24,
            forall|h: int| 0 <= h < 24 ==> #[trigger] r@[h] as int == hour_count(stamps@, h),
            forall|h: int| 0 <= h < 24 ==> #[trigger] r@[h] <= stamps@.len(),
    {
        let mut counts: Vec<usize> = Vec::new();
        let mut h: usize = 0;
        while h < 24
            invariant
                h <= 24,
                counts@.len() == h,
                forall|k: int| 0 <= k < h ==> #[trigger] counts@[k] == 0,
            decreases 24 - h,
        {
            counts.push(0);
            h = h + 1;
        }
        let mut i: usize = 0;
        while i < stamps.len()
            invariant
                i <= stamps@.len(),
                counts@.len() == 24,
                forall|j: int| 0 <= j < stamps@.len() ==> (#[trigger] stamps@[j]).wf(),
                forall|k: int|
                    0 <= k < 24 ==> #[trigger] counts@[k] as int == hour_count(
                        stamps@.subrange(0, i as int),
                        k,
                    ),
                forall|k: int| 0 <= k < 24 ==> #[trigger] counts@[k] <= i,
            decreases stamps.len() - i,
        {
            let ghost prefix = stamps@.subrange(0, i + 1);
            assert(prefix.drop_last() =~= stamps@.subrange(0, i as int));
            proof {
                lemma_clock_ranges(stamps@[i as int]);
            }
            let hr = stamps[i].hour as usize;
            let c = counts[hr];
            counts.set(hr, c + 1);
            assert forall|k: int| 0 <= k < 24 implies #[trigger] counts@[k] as int == hour_count(
                prefix,
                k,
            ) by {
                assert(prefix.last() == stamps@[i as int]);
            }
            i = i + 1;
        }
        assert(stamps@.subrange(0, i as int) =~= stamps@);
        counts
    }

    /// Analyze the distribution of commands across hours.
    fn analyze_hour_distribution(stamps: &Vec<Timestamp>) -> (r: SignalCollection)
        requires
            stamps@.len() > 0,
            forall|i: int| 0 <= i < stamps@.len() ==> (#[trigger] stamps@[i]).wf(),
        ensures
            r@ == hour_signals(stamps@),
            scores_bounded(r@),
    {
        let ghost ts = stamps@;
        let counts = Self::hour_histogram(stamps);
        let mut max_count: usize = 0;
        let mut active: usize = 0;
        let mut h: usize = 0;
        while h < 24
            invariant
                h <= 24,
                counts@.len() == 24,
                forall|k: int| 0 <= k < 24 ==> #[trigger] counts@[k] as int == hour_count(ts, k),
                forall|k: int| 0 <= k < 24 ==> #[trigger] counts@[k] <= ts.len(),
                max_count as int == max_hour_upto(ts, h as int),
                max_count <= ts.len(),
                active as int == active_hours_upto(ts, h as int),
                active <= h,
            decreases 24 - h,
        {
            if counts[h] > max_count {
                max_count = counts[h];
            }
            if counts[h] > 0 {
                active = active + 1;
            }
            h = h + 1;
        }
        let mut signals = SignalCollection::new();
        let total = stamps.len() as u128;
        let top = max_count as u128;
        if max_count > 0 && 20 * top > 3 * total {
            let mut desc = String::new();
            let mut first = true;
            let mut k: usize = 0;
            while k < 24
                invariant
                    k <= 24,
                    counts@.len() == 24,
                    forall|j: int| 0 <= j < 24 ==> #[trigger] counts@[j] as int == hour_count(ts, j),
                    max_count > 0,
                    first == (peak_hours_upto(ts, max_count as int, k as int).len() == 0),
                    desc@ == hour_list(peak_hours_upto(ts, max_count as int, k as int)),
                decreases 24 - k,
            {
                let ghost before = peak_hours_upto(ts, max_count as int, k as int);
                if counts[k] == max_count {
                    if !first {
                        desc.append(", ");
                    }
                    push_two_digits(&mut desc, k as u64);
                    desc.append(":00");
                    first = false;
                    proof {
                        let after = before.push(k as int);
                        assert(after.drop_last() =~= before);
                        if before.len() == 0 {
                            assert(desc@ =~= hour_list(after));
                        } else {
                            assert(desc@ =~= hour_list(after));
                        }
                    }
                }
                k = k + 1;
            }
            proof {
                lemma_ratio_bound(10000 * top as int, total as int, 10000);
            }
            let mut note = String::from_str("Most active: ");
            note.append(desc.as_str());
            signals.add(Signal::new("peak_hours", (10000 * top / total) as i64).with_note(note));
        }
        if 5 * active < 48 {
            signals.add(Signal::new("time_concentrated", (10000 * (24 - active) / 24) as i64));
        } else if 10 * active > 168 {
            signals.add(Signal::new("time_spread", (10000 * active / 24) as i64));
        }
        assert(signals@ =~= hour_signals(ts));
        signals
    }
}

} // verus!
