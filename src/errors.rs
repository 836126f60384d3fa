//! Signals of mistakes, corrections and uncertainty.
use vstd::prelude::*;
use vstd::string::{StrSliceExecFns, StringExecFns};
use crate::history::{is_typo_name, name_of, utf8_len, utf8_length, HistoryEntry};
use crate::signals::{scores_bounded, lemma_ratio_bound, Signal, SignalCollection, SignalView, SCORE_ONE};
use crate::stats::{command_names, count_eq, count_member, count_members, count_equal, names_of};
use crate::stats::{lemma_count_eq_bounds, lemma_count_member_bounds};
use crate::text::{decimal, push_decimal, texts};

verus! {

/// Error signal analyzer.
pub struct ErrorSignals;

/// The commands that check status rather than change anything.
pub open spec fn status_commands() -> Seq<Seq<char>> {
    seq!["ls"@, "git"@, "pwd"@, "cat"@, "head"@, "tail"@, "stat"@, "file"@]
}

/// How many entries look like typos.
pub open spec fn typo_count(es: Seq<HistoryEntry>) -> int
    decreases es.len(),
{
    if es.len() == 0 {
        0
    } else {
        typo_count(es.drop_last()) + if is_typo_name(name_of(es.last().command@)) {
            1int
        } else {
            0
        }
    }
}

/// How many adjacent pairs repeat the same command.
pub open spec fn repeat_count(es: Seq<HistoryEntry>) -> int
    decreases es.len(),
{
    if es.len() < 2 {
        0
    } else {
        repeat_count(es.drop_last()) + if es[es.len() - 2].command@ == es.last().command@ {
            1int
        } else {
            0
        }
    }
}

/// How many positions of two equally long texts differ, among the first `n`.
pub open spec fn mismatches(a: Seq<char>, b: Seq<char>, n: int) -> int
    decreases n,
{
    if n <= 0 {
        0
    } else {
        mismatches(a, b, n - 1) + if a[n - 1] != b[n - 1] {
            1int
        } else {
            0
        }
    }
}

/// Character distance: differing positions for equal lengths, else the
/// difference of the lengths.
pub open spec fn simple_distance_of(a: Seq<char>, b: Seq<char>) -> int {
    if a.len() != b.len() {
        if a.len() > b.len() {
            a.len() - b.len()
        } else {
            b.len() - a.len()
        }
    } else {
        mismatches(a, b, a.len() as int)
    }
}

/// The byte lengths differ by at most two and the distance is 1 or 2.
pub open spec fn likely_correction(a: Seq<char>, b: Seq<char>) -> bool {
    -2 <= utf8_len(a) - utf8_len(b) <= 2 && 0 < simple_distance_of(a, b) <= 2
}

/// How many adjacent pairs look like a command and its correction.
pub open spec fn correction_count(es: Seq<HistoryEntry>) -> int
    decreases es.len(),
{
    if es.len() < 2 {
        0
    } else {
        correction_count(es.drop_last()) + if likely_correction(
            es[es.len() - 2].command@,
            es.last().command@,
        ) {
            1int
        } else {
            0
        }
    }
}

/// The largest count of a single status command among the first `k`.
pub open spec fn max_status_upto(names: Seq<Seq<char>>, k: int) -> int
    decreases k,
{
    if k <= 0 {
        0
    } else {
        let prev = max_status_upto(names, k - 1);
        let c = count_eq(names, status_commands()[k - 1]);
        if c > prev {
            c
        } else {
            prev
        }
    }
}

pub open spec fn min_one(x: int) -> int {
    if x > SCORE_ONE as int {
        SCORE_ONE as int
    } else {
        x
    }
}

pub open spec fn one(id: Seq<char>, score: int, note: Option<Seq<char>>) -> Seq<SignalView> {
    seq![SignalView { id, score, note }]
}

/// The typo-rate signal: high above 0.1, medium above 0.03, low on more than 50 entries.
pub open spec fn typo_signals(es: Seq<HistoryEntry>) -> Seq<SignalView> {
    let n = es.len() as int;
    let t = typo_count(es);
    if 10 * t > n {
        one(
            "typo_rate_high"@,
            min_one(50000 * t / n),
            Some(decimal((100 * t / n) as nat) + "% possible typos"@),
        )
    } else if 100 * t > 3 * n {
        one("typo_rate_medium"@, 100000 * t / n, None)
    } else if n > 50 {
        one("typo_rate_low"@, (10000 * n - 100000 * t) / n, None)
    } else {
        seq![]
    }
}

/// The share of repeated adjacent commands, where it exceeds 0.2.
pub open spec fn repeat_signals(es: Seq<HistoryEntry>) -> Seq<SignalView> {
    let pairs = es.len() - 1;
    let r = repeat_count(es);
    if es.len() >= 2 && 5 * r > pairs {
        one(
            "repeat_commands"@,
            10000 * r / pairs,
            Some("Same commands executed multiple times"@),
        )
    } else {
        seq![]
    }
}

/// The share of adjacent pairs that look like corrections, where it exceeds 0.1.
pub open spec fn correction_signals(es: Seq<HistoryEntry>) -> Seq<SignalView> {
    let pairs = es.len() - 1;
    let c = correction_count(es);
    if es.len() >= 2 && 10 * c > pairs {
        one("correction_pattern"@, 10000 * c / pairs, None)
    } else {
        seq![]
    }
}

/// Status checks: their share, plus half the share of the most repeated one
/// when it occurs more than five times, capped at 1; kept from 0.3 on.
pub open spec fn status_signals(es: Seq<HistoryEntry>) -> Seq<SignalView> {
    let n = es.len() as int;
    let s = count_member(names_of(es), status_commands());
    let m = max_status_upto(names_of(es), 8);
    let doubled = if m > 5 {
        2 * s + m
    } else {
        2 * s
    };
    if 10 * doubled >= 6 * n {
        one("status_check_loop"@, min_one(5000 * doubled / n), Some("Frequent status verification"@))
    } else {
        seq![]
    }
}

/// All error signals of a history.
pub open spec fn error_signals(es: Seq<HistoryEntry>) -> Seq<SignalView> {
    if es.len() == 0 {
        seq![]
    } else {
        typo_signals(es) + repeat_signals(es) + correction_signals(es) + status_signals(es)
    }
}

impl ErrorSignals {
    /// Analyze error patterns in history entries.
    pub fn analyze(entries: &[HistoryEntry]) -> (r: SignalCollection)
        ensures
            r@ == error_signals(entries@),
            scores_bounded(r@),
    {
        let mut signals = SignalCollection::new();
        if entries.len() == 0 {
            return signals;
        }
        let n = entries.len() as u128;
        let t = Self::count_typos(entries) as u128;
        proof {
            lemma_ratio_bound(100 * t as int, n as int, 100);
        }
        if 10 * t > n {
            let score = if 50000 * t / n > SCORE_ONE as u128 {
                SCORE_ONE as u128
            } else {
                50000 * t / n
            };
            let mut note = String::new();
            push_decimal(&mut note, (100 * t / n) as u64);
            note.append("% possible typos");
            signals.add(Signal::new("typo_rate_high", score as i64).with_note(note));
        } else if 100 * t > 3 * n {
            proof {
                lemma_ratio_bound(100000 * t as int, n as int, 10000);
            }
            signals.add(Signal::new("typo_rate_medium", (100000 * t / n) as i64));
        } else if n > 50 {
            proof {
                lemma_ratio_bound(10000 * n - 100000 * t, n as int, 10000);
            }
            signals.add(Signal::new("typo_rate_low", ((10000 * n - 100000 * t) / n) as i64));
        }
        let ghost after_typos = signals@;
        assert(after_typos =~= typo_signals(entries@));
        if entries.len() >= 2 {
            let pairs = (entries.len() - 1) as u128;
            let r = Self::detect_repeats(entries) as u128;
            if 5 * r > pairs {
                proof {
                    lemma_ratio_bound(10000 * r as int, pairs as int, 10000);
                }
                signals.add(
                    Signal::new("repeat_commands", (10000 * r / pairs) as i64).with_note(
                        String::from_str("Same commands executed multiple times"),
                    ),
                );
            }
            let c = Self::detect_corrections(entries) as u128;
            if 10 * c > pairs {
                proof {
                    lemma_ratio_bound(10000 * c as int, pairs as int, 10000);
                }
                signals.add(Signal::new("correction_pattern", (10000 * c / pairs) as i64));
            }
        }
        assert(signals@ =~= typo_signals(entries@) + repeat_signals(entries@) + correction_signals(
            entries@,
        ));
        let doubled = Self::detect_status_checks(entries);
        if 10 * doubled >= 6 * n {
            let score = if 5000 * doubled / n > SCORE_ONE as u128 {
                SCORE_ONE as u128
            } else {
                5000 * doubled / n
            };
            signals.add(
                Signal::new("status_check_loop", score as i64).with_note(
                    String::from_str("Frequent status verification"),
                ),
            );
        }
        assert(signals@ =~= error_signals(entries@));
        signals
    }

    fn count_typos(entries: &[HistoryEntry]) -> (r: usize)
        ensures
            r as int == typo_count(entries@),
            r <= entries@.len(),
    {
        let mut count: usize = 0;
        let mut i: usize = 0;
        while i < entries.len()
            invariant
                i <= entries@.len(),
                count <= i,
                count as int == typo_count(entries@.subrange(0, i as int)),
            decreases entries.len() - i,
        {
            assert(entries@.subrange(0, i + 1).drop_last() =~= entries@.subrange(0, i as int));
            if entries[i].looks_like_typo() {
                count = count + 1;
            }
            i = i + 1;
        }
        assert(entries@.subrange(0, i as int) =~= entries@);
        count
    }

    /// How many adjacent pairs repeat the same command.
    fn detect_repeats(entries: &[HistoryEntry]) -> (r: usize)
        requires
            entries@.len() >= 2,
        ensures
            r as int == repeat_count(entries@),
            r < entries@.len(),
    {
        let mut count: usize = 0;
        let mut i: usize = 1;
        assert(repeat_count(entries@.subrange(0, 1)) == 0);
        while i < entries.len()
            invariant
                1 <= i <= entries@.len(),
                count < i,
                count as int == repeat_count(entries@.subrange(0, i as int)),
            decreases entries.len() - i,
        {
            assert(entries@.subrange(0, i + 1).drop_last() =~= entries@.subrange(0, i as int));
            if entries[i - 1].command == entries[i].command {
                count = count + 1;
            }
            i = i + 1;
        }
        assert(entries@.subrange(0, i as int) =~= entries@);
        count
    }

    /// How many adjacent pairs look like a command and its correction.
    fn detect_corrections(entries: &[HistoryEntry]) -> (r: usize)
        requires
            entries@.len() >= 2,
        ensures
            r as int == correction_count(entries@),
            r < entries@.len(),
    {
        let mut count: usize = 0;
        let mut i: usize = 1;
        assert(correction_count(entries@.subrange(0, 1)) == 0);
        while i < entries.len()
            invariant
                1 <= i <= entries@.len(),
                count < i,
                count as int == correction_count(entries@.subrange(0, i as int)),
            decreases entries.len() - i,
        {
            assert(entries@.subrange(0, i + 1).drop_last() =~= entries@.subrange(0, i as int));
            if Self::is_likely_correction(entries[i - 1].command.as_str(), entries[i].command.as_str()) {
                count = count + 1;
            }
            i = i + 1;
        }
        assert(entries@.subrange(0, i as int) =~= entries@);
        count
    }

    /// Whether `cmd2` looks like a correction of `cmd1`.
    pub fn is_likely_correction(cmd1: &str, cmd2: &str) -> (r: bool)
        ensures
            r == likely_correction(cmd1@, cmd2@),
    {
        let l1 = utf8_length(cmd1);
        let l2 = utf8_length(cmd2);
        let len_diff = if l1 > l2 {
            l1 - l2
        } else {
            l2 - l1
        };
        if len_diff > 2 {
            return false;
        }
        let distance = Self::simple_distance(cmd1, cmd2);
        distance > 0 && distance <= 2
    }

    /// Character distance: differing positions for equal lengths, else the
    /// difference of the lengths.
    pub fn simple_distance(a: &str, b: &str) -> (r: usize)
        ensures
            r as int == simple_distance_of(a@, b@),
    {
        let na = a.unicode_len();
        let nb = b.unicode_len();
        if na != nb {
            return if na > nb {
                na - nb
            } else {
                nb - na
            };
        }
        let mut count: usize = 0;
        let mut i: usize = 0;
        while i < na
            invariant
                i <= na,
                na == a@.len(),
                nb == b@.len(),
                na == nb,
                count <= i,
                count as int == mismatches(a@, b@, i as int),
            decreases na - i,
        {
            if a.get_char(i) != b.get_char(i) {
                count = count + 1;
            }
            i = i + 1;
        }
        count
    }

    /// Twice the share numerator of status checking: twice the number of
    /// status commands, plus the count of the most repeated one when it
    /// occurs more than five times.
    fn detect_status_checks(entries: &[HistoryEntry]) -> (r: u128)
        ensures
            ({
                let s = count_member(names_of(entries@), status_commands());
                let m = max_status_upto(names_of(entries@), 8);
                r as int == if m > 5 {
                    2 * s + m
                } else {
                    2 * s
                }
            }),
            r <= 3 * entries@.len(),
    {
        let status: [&str; 8] = ["ls", "git", "pwd", "cat", "head", "tail", "stat", "file"];
        assert(texts(status@) =~= status_commands());
        let names = command_names(entries);
        let status_count = count_members(&names, &status);
        proof {
            lemma_count_member_bounds(names_of(entries@), status_commands());
        }
        let mut max_single: usize = 0;
        let mut k: usize = 0;
        while k < 8
            invariant
                k <= 8,
                texts(names@) == names_of(entries@),
                texts(status@) == status_commands(),
                max_single as int == max_status_upto(names_of(entries@), k as int),
                max_single <= entries@.len(),
            decreases 8 - k,
        {
            let c = count_equal(&names, status[k]);
            proof {
                lemma_count_eq_bounds(names_of(entries@), status_commands()[k as int]);
            }
            if c > max_single {
                max_single = c;
            }
            k = k + 1;
        }
        if max_single > 5 {
            2 * (status_count as u128) + max_single as u128
        } else {
            2 * (status_count as u128)
        }
    }
}

} // verus!
