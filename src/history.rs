//! One command of a shell history, with what the detectors read of it.
use vstd::prelude::*;
use vstd::string::StringExecFns;
use vstd::string::StrSliceExecFns;
use crate::text::{first_word, first_word_of, in_list, texts};

verus! {

/// The earliest Unix time that the calendar handles (the year -9999).
pub const MIN_UNIX: i64 = -377705116800;

/// The latest Unix time that the calendar handles (the end of the year 9999).
pub const MAX_UNIX: i64 = 253402300799;

/// The UTC hour of day of a Unix time.
pub open spec fn hour_of(unix: int) -> int {
    (unix % 86400) / 3600
}

/// The ISO weekday (1 = Monday, 7 = Sunday) of a Unix time, in UTC.
pub open spec fn weekday_of(unix: int) -> int {
    ((unix / 86400) + 3) % 7 + 1
}

/// Relies on `time::OffsetDateTime::from_unix_timestamp` (and its `hour` and
/// `weekday().number_from_monday()`): the UTC hour and ISO weekday of a Unix
/// time, which the crate accepts for years -9999 to 9999.
#[verifier::external_body]
fn utc_clock(unix: i64) -> (r: Option<(u8, u8)>)
    ensures
        MIN_UNIX <= unix <= MAX_UNIX ==> r is Some,
        r matches Some(hw) ==> hw.0 as int == hour_of(unix as int) && hw.1 as int == weekday_of(
            unix as int,
        ),
{
    match time::OffsetDateTime::from_unix_timestamp(unix) {
        Ok(t) => Some((t.hour(), t.weekday().number_from_monday())),
        Err(_) => None,
    }
}

/// A point in time, with the UTC hour and weekday that the detectors read.
#[derive(Clone, Copy, Debug, PartialEq, Eq, Structural)]
pub struct Timestamp {
    /// Seconds since the Unix epoch
    pub unix: i64,
    /// Hour of day, 0 to 23
    pub hour: u8,
    /// Day of week, 1 (Monday) to 7 (Sunday)
    pub weekday: u8,
}

impl Timestamp {
    /// The hour and weekday agree with the Unix time.
    pub open spec fn wf(self) -> bool {
        self.hour as int == hour_of(self.unix as int) && self.weekday as int == weekday_of(
            self.unix as int,
        )
    }

    /// The timestamp of a Unix time; `None` outside the calendar's years.
    pub fn from_unix(unix: i64) -> (r: Option<Timestamp>)
        ensures
            MIN_UNIX <= unix <= MAX_UNIX ==> r is Some,
            r matches Some(t) ==> t.unix == unix && t.wf(),
    {
        match utc_clock(unix) {
            Some((hour, weekday)) => Some(Timestamp { unix, hour, weekday }),
            None => None,
        }
    }
}

pub proof fn lemma_clock_ranges(t: Timestamp)
    requires
        t.wf(),
    ensures
        0 <= t.hour < 24,
        1 <= t.weekday <= 7,
{
}

/// One command of the history.
#[derive(Clone, Debug)]
pub struct HistoryEntry {
    /// The command that was executed (without arguments)
    pub command: String,
    /// The full command line, where it is kept
    pub full_line: String,
    /// When the command was executed
    pub timestamp: Option<Timestamp>,
    /// Duration in seconds, if known
    pub duration: Option<u64>,
    /// Line number in the history file
    pub line_number: usize,
}

/// The short command names that are not taken for typos.
pub open spec fn known_short_commands() -> Seq<Seq<char>> {
    seq![
        "ls"@, "cd"@, "cp"@, "mv"@, "rm"@, "cat"@, "man"@, "top"@, "ps"@, "df"@, "du"@, "ln"@,
        "vi"@, "fg"@, "bg"@, "id"@, "wc"@, "nl"@, "od"@, "tr"@, "xd"@, "bc"@, "dc"@, "go"@,
        "oc"@, "gh"@,
    ]
}

/// The command name of a command: its first word.
pub open spec fn name_of(command: Seq<char>) -> Seq<char> {
    first_word(command)
}

/// The number of bytes that UTF-8 takes for a character.
pub open spec fn utf8_width(c: char) -> int {
    if (c as u32) < 0x80 {
        1
    } else if (c as u32) < 0x800 {
        2
    } else if (c as u32) < 0x10000 {
        3
    } else {
        4
    }
}

/// The length in bytes of the UTF-8 encoding of a text.
pub open spec fn utf8_len(s: Seq<char>) -> int
    decreases s.len(),
{
    if s.len() == 0 {
        0
    } else {
        utf8_len(s.drop_last()) + utf8_width(s.last())
    }
}

pub proof fn lemma_utf8_len_grows(s: Seq<char>, i: int)
    requires
        0 <= i <= s.len(),
    ensures
        utf8_len(s.subrange(0, i)) <= utf8_len(s),
    decreases s.len() - i,
{
    if i < s.len() {
        assert(s.subrange(0, i + 1).drop_last() =~= s.subrange(0, i));
        lemma_utf8_len_grows(s, i + 1);
    } else {
        assert(s.subrange(0, i) =~= s);
    }
}

/// Whether a text takes at most `limit` bytes in UTF-8.
pub fn fits_in_bytes(s: &str, limit: usize) -> (r: bool)
    ensures
        r == (utf8_len(s@) <= limit as int),
{
    let n = s.unicode_len();
    let mut total: usize = 0;
    let mut i: usize = 0;
    while i < n
        invariant
            i <= n,
            n == s@.len(),
            total as int == utf8_len(s@.subrange(0, i as int)),
            total <= limit,
        decreases n - i,
    {
        let c = s.get_char(i);
        let w: usize = if (c as u32) < 0x80 {
            1
        } else if (c as u32) < 0x800 {
            2
        } else if (c as u32) < 0x10000 {
            3
        } else {
            4
        };
        assert(s@.subrange(0, i + 1).drop_last() =~= s@.subrange(0, i as int));
        if w > limit - total {
            proof {
                lemma_utf8_len_grows(s@, i + 1);
            }
            return false;
        }
        total = total + w;
        i = i + 1;
    }
    assert(s@.subrange(0, n as int) =~= s@);
    true
}

/// The length in bytes of the UTF-8 encoding of a text.
pub fn utf8_length(s: &str) -> (r: u128)
    ensures
        r as int == utf8_len(s@),
{
    let n = s.unicode_len();
    let mut total: u128 = 0;
    let mut i: usize = 0;
    while i < n
        invariant
            i <= n,
            n == s@.len(),
            total as int == utf8_len(s@.subrange(0, i as int)),
            total <= 4 * i,
        decreases n - i,
    {
        let c = s.get_char(i);
        let w: u128 = if (c as u32) < 0x80 {
            1
        } else if (c as u32) < 0x800 {
            2
        } else if (c as u32) < 0x10000 {
            3
        } else {
            4
        };
        assert(s@.subrange(0, i + 1).drop_last() =~= s@.subrange(0, i as int));
        total = total + w;
        i = i + 1;
    }
    assert(s@.subrange(0, n as int) =~= s@);
    total
}

/// A name of at most three bytes that is not a known short command.
pub open spec fn is_typo_name(name: Seq<char>) -> bool {
    utf8_len(name) <= 3 && !known_short_commands().contains(name)
}

/// The entry's timestamp is well formed, where it has one.
pub open spec fn stamp_wf(t: Option<Timestamp>) -> bool {
    t matches Some(ts) ==> ts.wf()
}

/// Whether an hour lies outside 04:00 to 21:59.
pub open spec fn late_hour(h: int) -> bool {
    !(4 <= h < 22)
}

/// Whether an hour lies in 05:00 to 07:59.
pub open spec fn early_hour(h: int) -> bool {
    5 <= h <= 7
}

/// Whether an hour lies in 12:00 to 13:59.
pub open spec fn lunch_hour(h: int) -> bool {
    12 <= h <= 13
}

impl HistoryEntry {
    /// An entry with no full line and no duration.
    pub fn new(command: String, timestamp: Option<Timestamp>, line_number: usize) -> (r:
        HistoryEntry)
        ensures
            r.command == command,
            r.full_line@ == Seq::<char>::empty(),
            r.timestamp == timestamp,
            r.duration is None,
            r.line_number == line_number,
    {
        HistoryEntry { command, full_line: String::new(), timestamp, duration: None, line_number }
    }

    /// The same entry with the full command line kept.
    pub fn with_full_line(self, full_line: String) -> (r: HistoryEntry)
        ensures
            r.full_line == full_line,
            r.command == self.command,
            r.timestamp == self.timestamp,
            r.duration == self.duration,
            r.line_number == self.line_number,
    {
        HistoryEntry { full_line, ..self }
    }

    /// The command name: the first word of the command.
    pub fn command_name(&self) -> (r: &str)
        ensures
            r@ == name_of(self.command@),
    {
        first_word_of(self.command.as_str())
    }

    /// Whether the command looks like a typo: a name of at most three bytes
    /// that is not a known short command.
    pub fn looks_like_typo(&self) -> (r: bool)
        ensures
            r == is_typo_name(name_of(self.command@)),
    {
        let cmd = self.command_name();
        fits_in_bytes(cmd, 3) && !Self::is_known_short_command(cmd)
    }

    fn is_known_short_command(cmd: &str) -> (r: bool)
        ensures
            r == known_short_commands().contains(cmd@),
    {
        let known: [&str; 26] = [
            "ls", "cd", "cp", "mv", "rm", "cat", "man", "top", "ps", "df", "du", "ln", "vi", "fg",
            "bg", "id", "wc", "nl", "od", "tr", "xd", "bc", "dc", "go", "oc", "gh",
        ];
        assert(texts(known@) =~= known_short_commands());
        in_list(cmd, &known)
    }

    /// The hour of day, if the entry has a timestamp.
    pub fn hour(&self) -> (r: Option<u8>)
        ensures
            r == (match self.timestamp {
                Some(t) => Some(t.hour),
                None => None::<u8>,
            }),
    {
        match self.timestamp {
            Some(t) => Some(t.hour),
            None => None,
        }
    }

    /// Whether the command ran between 22:00 and 03:59.
    pub fn is_late_night(&self) -> (r: bool)
        ensures
            r == (self.timestamp matches Some(t) && late_hour(t.hour as int)),
    {
        match self.hour() {
            Some(h) => !(4 <= h && h < 22),
            None => false,
        }
    }

    /// Whether the command ran between 05:00 and 07:59.
    pub fn is_early_morning(&self) -> (r: bool)
        ensures
            r == (self.timestamp matches Some(t) && early_hour(t.hour as int)),
    {
        match self.hour() {
            Some(h) => 5 <= h && h <= 7,
            None => false,
        }
    }

    /// Whether the command ran between 12:00 and 13:59.
    pub fn is_lunch_time(&self) -> (r: bool)
        ensures
            r == (self.timestamp matches Some(t) && lunch_hour(t.hour as int)),
    {
        match self.hour() {
            Some(h) => 12 <= h && h <= 13,
            None => false,
        }
    }

    /// The day of week (1 = Monday, 7 = Sunday), if the entry has a timestamp.
    pub fn weekday(&self) -> (r: Option<u8>)
        ensures
            r == (match self.timestamp {
                Some(t) => Some(t.weekday),
                None => None::<u8>,
            }),
    {
        match self.timestamp {
            Some(t) => Some(t.weekday),
            None => None,
        }
    }

    /// Whether the command ran on a Saturday or a Sunday.
    pub fn is_weekend(&self) -> (r: bool)
        ensures
            r == (self.timestamp matches Some(t) && t.weekday >= 6),
    {
        match self.weekday() {
            Some(d) => d >= 6,
            None => false,
        }
    }
}

/// The timestamp, where there is one, lies within the bounds that are given.
pub open spec fn in_range(t: Option<Timestamp>, since: Option<i64>, until: Option<i64>) -> bool {
    match t {
        Some(ts) => (since matches Some(lo) ==> ts.unix >= lo) && (until matches Some(hi) ==> ts.unix
            <= hi),
        None => true,
    }
}

/// The entries whose timestamp lies in range, and those without one, in order.
pub open spec fn kept_in_range(es: Seq<HistoryEntry>, since: Option<i64>, until: Option<i64>) -> Seq<
    HistoryEntry,
>
    decreases es.len(),
{
    if es.len() == 0 {
        seq![]
    } else if in_range(es.last().timestamp, since, until) {
        kept_in_range(es.drop_last(), since, until).push(es.last())
    } else {
        kept_in_range(es.drop_last(), since, until)
    }
}

impl HistoryEntry {
    /// A copy of the entry.
    pub fn duplicate(&self) -> (r: HistoryEntry)
        ensures
            r == *self,
    {
        HistoryEntry {
            command: self.command.clone(),
            full_line: self.full_line.clone(),
            timestamp: self.timestamp,
            duration: self.duration,
            line_number: self.line_number,
        }
    }
}

/// Keeps the entries from `since` to `until` (either bound may be absent);
/// entries without a timestamp are always kept.
pub fn filter_by_range(entries: &[HistoryEntry], since: Option<i64>, until: Option<i64>) -> (r: Vec<
    HistoryEntry,
>)
    ensures
        r@ == kept_in_range(entries@, since, until),
{
    let mut r: Vec<HistoryEntry> = Vec::new();
    let mut i: usize = 0;
    while i < entries.len()
        invariant
            i <= entries@.len(),
            r@ == kept_in_range(entries@.subrange(0, i as int), since, until),
        decreases entries.len() - i,
    {
        assert(entries@.subrange(0, i + 1).drop_last() =~= entries@.subrange(0, i as int));
        let e = &entries[i];
        let keep = match e.timestamp {
            Some(ts) => {
                let after = match since {
                    Some(lo) => ts.unix >= lo,
                    None => true,
                };
                let before = match until {
                    Some(hi) => ts.unix <= hi,
                    None => true,
                };
                after && before
            },
            None => true,
        };
        if keep {
            r.push(e.duplicate());
        }
        i = i + 1;
    }
    assert(entries@.subrange(0, i as int) =~= entries@);
    r
}

} // verus!
