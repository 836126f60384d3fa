//! Reads ZSH history, plain or in the extended format
//! `: TIMESTAMP:DURATION;COMMAND`, where a command may go on over lines that
//! end in a backslash.
use vstd::prelude::*;
use vstd::string::{StrSliceExecFns, StringExecFns};
use crate::history::{HistoryEntry, Timestamp, MAX_UNIX, MIN_UNIX};
use crate::text::{
    chars_of, is_space, lemma_skip_word_bounds, parse_i64, parse_unsigned, parsed_i64,
    parsed_unsigned, skip_nonspaces, skip_word, texts, trim, trimmed,
};

verus! {

/// Relies on `String: FromIterator<char>`: the string of exactly these characters.
#[verifier::external_body]
fn string_of(chars: &[char]) -> (r: String)
    ensures
        r@ == chars@,
{
    chars.iter().collect()
}

/// The white-space separated words of `s` from index `i` on.
pub open spec fn words_from(s: Seq<char>, i: int) -> Seq<Seq<char>>
    decreases s.len() - i,
    via words_from_decreases
{
    if i < 0 || i >= s.len() {
        seq![]
    } else if is_space(s[i]) {
        words_from(s, i + 1)
    } else {
        seq![s.subrange(i, skip_word(s, i))] + words_from(s, skip_word(s, i))
    }
}

#[via_fn]
proof fn words_from_decreases(s: Seq<char>, i: int) {
    if 0 <= i < s.len() && !is_space(s[i]) {
        lemma_skip_word_bounds(s, i + 1);
    }
}

/// A word that assigns an environment variable: it holds `=` and does not
/// start with `-`.
pub open spec fn is_assignment(w: Seq<char>) -> bool {
    w.contains('=') && !(w.len() > 0 && w[0] == '-')
}

/// The index of the first word at or after `k` that is no assignment.
pub open spec fn skip_assignments(ws: Seq<Seq<char>>, k: int) -> int
    decreases ws.len() - k,
{
    if k < 0 || k >= ws.len() || !is_assignment(ws[k]) {
        k
    } else {
        skip_assignments(ws, k + 1)
    }
}

/// The commands that run the command after them.
pub open spec fn prefix_commands() -> Seq<Seq<char>> {
    seq!["sudo"@, "command"@, "builtin"@, "exec"@, "env"@, "nice"@, "nohup"@, "time"@]
}

/// The command name of a command line: the trimmed line itself when empty or
/// a comment; else the first word after the variable assignments, or the
/// word after it when it is a prefix command such as `sudo`.
pub open spec fn command_of_line(line: Seq<char>) -> Seq<char> {
    let t = trimmed(line);
    if t.len() == 0 || t[0] == '#' {
        t
    } else {
        let ws = words_from(t, 0);
        let k = skip_assignments(ws, 0);
        let cmd = if k < ws.len() {
            ws[k]
        } else {
            seq![]
        };
        if prefix_commands().contains(cmd) && k + 1 < ws.len() {
            ws[k + 1]
        } else {
            cmd
        }
    }
}

/// The first index at or after `i` that holds `c`, or the length.
pub open spec fn index_of(s: Seq<char>, c: char, i: int) -> int
    decreases s.len() - i,
{
    if i >= s.len() || s[i] == c {
        i
    } else {
        index_of(s, c, i + 1)
    }
}

pub proof fn lemma_index_of_bounds(s: Seq<char>, c: char, i: int)
    requires
        0 <= i <= s.len(),
    ensures
        i <= index_of(s, c, i) <= s.len(),
        index_of(s, c, i) < s.len() ==> s[index_of(s, c, i)] == c,
    decreases s.len() - i,
{
    if i < s.len() && s[i] != c {
        lemma_index_of_bounds(s, c, i + 1);
    }
}

/// Whether a line is in the extended format: it starts with `: `.
pub open spec fn is_extended(line: Seq<char>) -> bool {
    line.len() >= 2 && line[0] == ':' && line[1] == ' '
}

/// A line gives an entry: an extended line with a `;`, or a plain line that
/// is neither empty nor a comment.
pub open spec fn line_accepted(line: Seq<char>) -> bool {
    if is_extended(line) {
        let rest = line.subrange(2, line.len() as int);
        index_of(rest, ';', 0) < rest.len()
    } else {
        line.len() > 0 && line[0] != '#'
    }
}

/// The metadata and the command of an extended line.
pub open spec fn extended_parts(line: Seq<char>) -> (Seq<char>, Seq<char>) {
    let rest = line.subrange(2, line.len() as int);
    let p = index_of(rest, ';', 0);
    (rest.subrange(0, p), rest.subrange(p + 1, rest.len() as int))
}

/// The timestamp field of the metadata: what comes before the first `:`.
pub open spec fn stamp_field(meta: Seq<char>) -> Seq<char> {
    meta.subrange(0, index_of(meta, ':', 0))
}

/// The duration field of the metadata: between the first and the second `:`.
pub open spec fn duration_field(meta: Seq<char>) -> Option<Seq<char>> {
    let q = index_of(meta, ':', 0);
    if q < meta.len() {
        Some(meta.subrange(q + 1, index_of(meta, ':', q + 1)))
    } else {
        None
    }
}

/// The entry holds what the line says, numbered `number`.
pub open spec fn entry_of_line(
    e: HistoryEntry,
    line: Seq<char>,
    number: int,
    preserve: bool,
) -> bool {
    &&& e.line_number == number
    &&& if is_extended(line) {
        let (meta, full) = extended_parts(line);
        let stamp = parsed_i64(stamp_field(meta));
        &&& e.command@ == command_of_line(full)
        &&& e.full_line@ == if preserve {
            full
        } else {
            seq![]
        }
        &&& e.duration == match duration_field(meta) {
            Some(d) => match parsed_unsigned(d, u64::MAX as int) {
                Some(v) => Some(v as u64),
                None => None,
            },
            None => None,
        }
        &&& match e.timestamp {
            Some(t) => stamp == Some(t.unix as int) && t.wf(),
            None => stamp matches Some(v) ==> !(MIN_UNIX <= v <= MAX_UNIX),
        }
    } else {
        &&& e.command@ == command_of_line(line)
        &&& e.full_line@ == Seq::<char>::empty()
        &&& e.timestamp is None
        &&& e.duration is None
    }
}

/// The physical lines of a text from index `i` on, as `str::lines` gives
/// them: split at `\n`, a `\r` before it dropped, no empty line after a
/// final `\n`.
pub open spec fn lines_from(s: Seq<char>, i: int) -> Seq<Seq<char>>
    decreases s.len() + 1 - i,
    via lines_from_decreases
{
    if i < 0 || i >= s.len() {
        seq![]
    } else {
        let e = index_of(s, '\n', i);
        let piece = s.subrange(i, e);
        let line = if e < s.len() && piece.len() > 0 && piece.last() == '\r' {
            piece.drop_last()
        } else {
            piece
        };
        seq![line] + lines_from(s, e + 1)
    }
}

#[via_fn]
proof fn lines_from_decreases(s: Seq<char>, i: int) {
    if 0 <= i < s.len() {
        lemma_index_of_bounds(s, '\n', i);
    }
}

/// The state after joining the first lines: finished logical lines with
/// their first line numbers, the line being continued, and its first number.
pub struct JoinState {
    pub done: Seq<(Seq<char>, int)>,
    pub current: Seq<char>,
    pub start: int,
}

/// Joins the first `k` physical lines: a line that ends in a backslash goes
/// on, without the backslash and with a newline, in the next one.
pub open spec fn joined(lines: Seq<Seq<char>>, k: int) -> JoinState
    decreases k,
{
    if k <= 0 {
        JoinState { done: seq![], current: seq![], start: 1 }
    } else {
        let prev = joined(lines, k - 1);
        let line = lines[k - 1];
        let start = if prev.current.len() == 0 {
            k
        } else {
            prev.start
        };
        if line.len() > 0 && line.last() == '\\' {
            JoinState { done: prev.done, current: prev.current + line.drop_last() + seq!['\n'], start }
        } else {
            JoinState { done: prev.done.push((prev.current + line, start)), current: seq![], start }
        }
    }
}

/// The logical lines of a text with their first line numbers, an unfinished
/// continuation at the end included.
pub open spec fn logical_lines(content: Seq<char>) -> Seq<(Seq<char>, int)> {
    let lines = lines_from(content, 0);
    let st = joined(lines, lines.len() as int);
    if st.current.len() > 0 {
        st.done.push((st.current, st.start))
    } else {
        st.done
    }
}

/// The entries are those of the accepted logical lines, in order.
pub open spec fn entries_of(
    es: Seq<HistoryEntry>,
    ls: Seq<(Seq<char>, int)>,
    preserve: bool,
) -> bool
    decreases ls.len(),
{
    if ls.len() == 0 {
        es.len() == 0
    } else if line_accepted(ls.last().0) {
        es.len() > 0 && entry_of_line(es.last(), ls.last().0, ls.last().1, preserve) && entries_of(
            es.drop_last(),
            ls.drop_last(),
            preserve,
        )
    } else {
        entries_of(es, ls.drop_last(), preserve)
    }
}

/// The white-space separated words of the text.
fn words(s: &str) -> (r: Vec<&str>)
    ensures
        texts(r@) == words_from(s@, 0),
{
    let n = s.unicode_len();
    let mut r: Vec<&str> = Vec::new();
    let mut i: usize = 0;
    while i < n
        invariant
            i <= n,
            n == s@.len(),
            texts(r@) + words_from(s@, i as int) == words_from(s@, 0),
        decreases n - i,
    {
        if crate::text::space(s.get_char(i)) {
            i = i + 1;
        } else {
            proof {
                lemma_skip_word_bounds(s@, i + 1);
            }
            let b = skip_nonspaces(s, i);
            let ghost before = texts(r@);
            r.push(s.substring_char(i, b));
            assert(texts(r@) =~= before + seq![s@.subrange(i as int, b as int)]);
            assert(texts(r@) + words_from(s@, b as int) =~= before + words_from(s@, i as int));
            i = b;
        }
    }
    assert(texts(r@) =~= texts(r@) + words_from(s@, n as int));
    r
}

fn has_equals(w: &str) -> (r: bool)
    ensures
        r == w@.contains('='),
{
    let n = w.unicode_len();
    let mut i: usize = 0;
    while i < n
        invariant
            i <= n,
            n == w@.len(),
            forall|j: int| 0 <= j < i ==> w@[j] != '=',
        decreases n - i,
    {
        if w.get_char(i) == '=' {
            return true;
        }
        i = i + 1;
    }
    false
}

fn assignment(w: &str) -> (r: bool)
    ensures
        r == is_assignment(w@),
{
    let starts_dash = w.unicode_len() > 0 && w.get_char(0) == '-';
    has_equals(w) && !starts_dash
}

/// Extracts the command name from a command line: the first word after any
/// `VAR=value` assignments, or the word after a prefix command like `sudo`.
pub fn extract_command_name(line: &str) -> (r: String)
    ensures
        r@ == command_of_line(line@),
{
    let line = trim(line);
    let n = line.unicode_len();
    if n == 0 || line.get_char(0) == '#' {
        return String::from_str(line);
    }
    let ws = words(line);
    let ghost wv = texts(ws@);
    let mut k: usize = 0;
    while k < ws.len() && assignment(ws[k])
        invariant
            k <= ws@.len(),
            wv == texts(ws@),
            skip_assignments(wv, k as int) == skip_assignments(wv, 0),
        decreases ws.len() - k,
    {
        k = k + 1;
    }
    assert(skip_assignments(wv, k as int) == k);
    let cmd: &str = if k < ws.len() {
        ws[k]
    } else {
        ""
    };
    proof {
        reveal_strlit("");
    }
    let prefixes: [&str; 8] = ["sudo", "command", "builtin", "exec", "env", "nice", "nohup", "time"];
    assert(texts(prefixes@) =~= prefix_commands());
    if crate::text::in_list(cmd, &prefixes) && k < ws.len() && ws.len() - k > 1 {
        String::from_str(ws[k + 1])
    } else {
        String::from_str(cmd)
    }
}

/// Parser for ZSH history.
#[derive(Debug, Default)]
pub struct ZshHistoryParser {
    /// Whether to keep the full command lines
    pub preserve_full_line: bool,
}

impl ZshHistoryParser {
    /// A parser that keeps no full lines.
    pub fn new() -> (r: ZshHistoryParser)
        ensures
            !r.preserve_full_line,
    {
        ZshHistoryParser { preserve_full_line: false }
    }

    /// Whether to keep full command lines.
    pub fn preserve_full_lines(self, preserve: bool) -> (r: ZshHistoryParser)
        ensures
            r.preserve_full_line == preserve,
    {
        ZshHistoryParser { preserve_full_line: preserve }
    }

    /// The index of the first `c` at or after `i`, or the length.
    fn find(s: &str, c: char, i: usize) -> (r: usize)
        requires
            i <= s@.len(),
        ensures
            r as int == index_of(s@, c, i as int),
    {
        let n = s.unicode_len();
        let mut j = i;
        while j < n && s.get_char(j) != c
            invariant
                i <= j <= n,
                n == s@.len(),
                index_of(s@, c, j as int) == index_of(s@, c, i as int),
            decreases n - j,
        {
            j = j + 1;
        }
        j
    }

    /// Parses one logical line; `None` where it holds no command.
    pub fn parse_line(&self, line: &str, line_number: usize) -> (r: Option<HistoryEntry>)
        ensures
            match r {
                Some(e) => line_accepted(line@) && entry_of_line(
                    e,
                    line@,
                    line_number as int,
                    self.preserve_full_line,
                ),
                None => !line_accepted(line@),
            },
    {
        let n = line.unicode_len();
        if !(n >= 2 && line.get_char(0) == ':' && line.get_char(1) == ' ') {
            if n > 0 && line.get_char(0) != '#' {
                let command = extract_command_name(line);
                return Some(HistoryEntry::new(command, None, line_number));
            }
            return None;
        }
        let rest = line.substring_char(2, n);
        let rn = rest.unicode_len();
        let semicolon_pos = Self::find(rest, ';', 0);
        proof {
            lemma_index_of_bounds(rest@, ';', 0);
        }
        if semicolon_pos >= rn {
            return None;
        }
        let metadata = rest.substring_char(0, semicolon_pos);
        let full_command = rest.substring_char(semicolon_pos + 1, rn);
        let mn = metadata.unicode_len();
        let colon = Self::find(metadata, ':', 0);
        proof {
            lemma_index_of_bounds(metadata@, ':', 0);
        }
        let timestamp_str = metadata.substring_char(0, colon);
        let duration: Option<u64> = if colon < mn {
            let end = Self::find(metadata, ':', colon + 1);
            proof {
                lemma_index_of_bounds(metadata@, ':', colon + 1);
            }
            parse_unsigned(metadata.substring_char(colon + 1, end), u64::MAX)
        } else {
            None
        };
        let timestamp: Option<Timestamp> = match parse_i64(timestamp_str) {
            Some(ts) => Timestamp::from_unix(ts),
            None => None,
        };
        let command = extract_command_name(full_command);
        let mut entry = HistoryEntry::new(command, timestamp, line_number);
        entry.duration = duration;
        if self.preserve_full_line {
            entry = entry.with_full_line(String::from_str(full_command));
        }
        Some(entry)
    }

    /// Parses a whole history text: lines ending in a backslash go on in the
    /// next line; each logical line is numbered by its first physical line.
    pub fn parse_content(&self, content: &str) -> (r: Vec<HistoryEntry>)
        ensures
            entries_of(r@, logical_lines(content@), self.preserve_full_line),
    {
        let chars = chars_of(content);
        let n = chars.len();
        let ghost s = content@;
        let ghost lines = lines_from(s, 0);
        let mut entries: Vec<HistoryEntry> = Vec::new();
        let mut current: Vec<char> = Vec::new();
        let mut start_line_number: usize = 1;
        let mut line_number: usize = 0;
        let mut i: usize = 0;
        assert(lines.subrange(0, lines.len() as int) =~= lines);
        while i < n
            invariant
                n == chars@.len(),
                chars@ == s,
                i <= n,
                line_number <= i,
                line_number <= lines.len(),
                lines_from(s, 0) == lines,
                lines.subrange(line_number as int, lines.len() as int) == lines_from(s, i as int),
                current@ == joined(lines, line_number as int).current,
                start_line_number as int == joined(lines, line_number as int).start,
                entries_of(entries@, joined(lines, line_number as int).done, self.preserve_full_line),
            decreases n - i,
        {
            let e = find_char(&chars, '\n', i);
            proof {
                lemma_index_of_bounds(s, '\n', i as int);
            }
            let mut end = e;
            if e < n && end > i && chars[end - 1] == '\r' {
                end = end - 1;
            }
            let ghost line = s.subrange(i as int, end as int);
            assert(lines_from(s, i as int) == seq![line] + lines_from(s, e + 1)) by {
                let piece = s.subrange(i as int, e as int);
                if e < n && piece.len() > 0 && piece.last() == '\r' {
                    assert(piece.drop_last() =~= line);
                } else {
                    assert(piece =~= line);
                }
            }
            let ghost k = line_number as int;
            assert(lines.subrange(k, lines.len() as int).len() >= 1);
            assert(lines[k] == lines.subrange(k, lines.len() as int)[0]);
            assert(lines[k] == line);
            let ghost prev = joined(lines, k);
            line_number = line_number + 1;
            if current.len() == 0 {
                start_line_number = line_number;
            }
            let continued = end > i && chars[end - 1] == '\\';
            let stop = if continued {
                end - 1
            } else {
                end
            };
            let ghost before = current@;
            let mut j = i;
            while j < stop
                invariant
                    i <= j <= stop,
                    stop <= n,
                    n == chars@.len(),
                    chars@ == s,
                    current@ == before + s.subrange(i as int, j as int),
                decreases stop - j,
            {
                current.push(chars[j]);
                assert(current@ =~= before + s.subrange(i as int, j + 1));
                j = j + 1;
            }
            if continued {
                current.push('\n');
                assert(current@ =~= prev.current + line.drop_last() + seq!['\n']);
            } else {
                assert(current@ =~= prev.current + line);
                let text = string_of(current.as_slice());
                let ghost done = prev.done.push((prev.current + line, start_line_number as int));
                assert(done.drop_last() =~= prev.done);
                match self.parse_line(text.as_str(), start_line_number) {
                    Some(entry) => {
                        let ghost old_entries = entries@;
                        entries.push(entry);
                        assert(entries@.drop_last() =~= old_entries);
                    },
                    None => {},
                }
                current = Vec::new();
                assert(current@ =~= Seq::<char>::empty());
            }
            i = if e < n {
                e + 1
            } else {
                n
            };
            assert(lines.subrange(k + 1, lines.len() as int) =~= lines.subrange(
                k,
                lines.len() as int,
            ).drop_first());
        }
        assert(lines_from(s, i as int) == Seq::<Seq<char>>::empty());
        assert(line_number as int == lines.len()) by {
            assert(lines.subrange(line_number as int, lines.len() as int).len() == 0);
        }
        if current.len() > 0 {
            let text = string_of(current.as_slice());
            let ghost done = joined(lines, lines.len() as int).done.push(
                (current@, start_line_number as int),
            );
            assert(done.drop_last() =~= joined(lines, lines.len() as int).done);
            match self.parse_line(text.as_str(), start_line_number) {
                Some(entry) => {
                    let ghost old_entries = entries@;
                    entries.push(entry);
                    assert(entries@.drop_last() =~= old_entries);
                },
                None => {},
            }
        }
        entries
    }
}

/// The index of the first `c` at or after `i`, or the length.
fn find_char(chars: &Vec<char>, c: char, i: usize) -> (r: usize)
    requires
        i <= chars@.len(),
    ensures
        r as int == index_of(chars@, c, i as int),
{
    let mut j = i;
    while j < chars.len() && chars[j] != c
        invariant
            i <= j <= chars@.len(),
            index_of(chars@, c, j as int) == index_of(chars@, c, i as int),
        decreases chars.len() - j,
    {
        j = j + 1;
    }
    j
}

} // verus!
