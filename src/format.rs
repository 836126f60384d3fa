//! Boxes, stamps, tables and other text layouts for terminal output.
//!
//! Widths are counted in characters.
use vstd::prelude::*;
use vstd::string::{StrSliceExecFns, StringExecFns};

verus! {

pub const BOX_TL: &'static str = "┌";

pub const BOX_TR: &'static str = "┐";

pub const BOX_BL: &'static str = "└";

pub const BOX_BR: &'static str = "┘";

pub const BOX_H: &'static str = "─";

pub const BOX_V: &'static str = "│";

pub const DBOX_TL: &'static str = "╔";

pub const DBOX_TR: &'static str = "╗";

pub const DBOX_BL: &'static str = "╚";

pub const DBOX_BR: &'static str = "╝";

pub const DBOX_H: &'static str = "═";

pub const DBOX_V: &'static str = "║";

pub const BOX_T_RIGHT: &'static str = "├";

pub const BOX_T_LEFT: &'static str = "┤";

pub const ELLIPSIS: &'static str = "…";

/// `s` repeated `n` times.
pub open spec fn repeat(s: Seq<char>, n: nat) -> Seq<char>
    decreases n,
{
    if n == 0 {
        seq![]
    } else {
        repeat(s, (n - 1) as nat) + s
    }
}

pub open spec fn spaces_of(n: nat) -> Seq<char> {
    repeat(seq![' '], n)
}

pub open spec fn newline() -> Seq<char> {
    seq!['\n']
}

/// Appends `s` `n` times.
pub fn push_repeat(out: &mut String, s: &str, n: usize)
    ensures
        final(out)@ == old(out)@ + repeat(s@, n as nat),
{
    let mut i: usize = 0;
    while i < n
        invariant
            i <= n,
            out@ == old(out)@ + repeat(s@, i as nat),
        decreases n - i,
    {
        out.append(s);
        proof {
            assert(repeat(s@, (i + 1) as nat) == repeat(s@, i as nat) + s@);
            assert(out@ =~= old(out)@ + repeat(s@, (i + 1) as nat));
        }
        i = i + 1;
    }
}

fn push_newline(out: &mut String)
    ensures
        final(out)@ == old(out)@ + newline(),
{
    proof {
        reveal_strlit("\n");
    }
    out.append("\n");
}

proof fn lemma_space()
    ensures
        " "@ == seq![' '],
{
    reveal_strlit(" ");
    assert(" "@ =~= seq![' ']);
}

/// Appends `edge`, `left` spaces, `text`, `right` spaces, `edge` and a newline.
fn push_row(out: &mut String, edge: &str, left: usize, text: &str, right: usize)
    ensures
        final(out)@ == old(out)@ + (edge@ + spaces_of(left as nat) + text@ + spaces_of(right as nat)
            + edge@ + newline()),
{
    proof {
        lemma_space();
    }
    out.append(edge);
    push_repeat(out, " ", left);
    out.append(text);
    push_repeat(out, " ", right);
    out.append(edge);
    push_newline(out);
    assert(out@ =~= old(out)@ + (edge@ + spaces_of(left as nat) + text@ + spaces_of(right as nat)
        + edge@ + newline()));
}

/// Style of box to draw.
#[derive(Debug, Clone, Copy, PartialEq, Eq, Structural, Default)]
pub enum BoxStyle {
    /// Single-line border
    #[default]
    Single,
    /// Double-line border
    Double,
}

/// The six characters of a box border: corners top left, top right, bottom
/// left, bottom right, then horizontal and vertical lines.
pub open spec fn style_chars(style: BoxStyle) -> (Seq<char>, Seq<char>, Seq<char>, Seq<char>, Seq<char>, Seq<char>) {
    match style {
        BoxStyle::Single => (BOX_TL@, BOX_TR@, BOX_BL@, BOX_BR@, BOX_H@, BOX_V@),
        BoxStyle::Double => (DBOX_TL@, DBOX_TR@, DBOX_BL@, DBOX_BR@, DBOX_H@, DBOX_V@),
    }
}

impl BoxStyle {
    fn chars(&self) -> (r: (&'static str, &'static str, &'static str, &'static str, &'static str, &'static str))
        ensures
            (r.0@, r.1@, r.2@, r.3@, r.4@, r.5@) == style_chars(*self),
    {
        match self {
            BoxStyle::Single => (BOX_TL, BOX_TR, BOX_BL, BOX_BR, BOX_H, BOX_V),
            BoxStyle::Double => (DBOX_TL, DBOX_TR, DBOX_BL, DBOX_BR, DBOX_H, DBOX_V),
        }
    }
}

/// A builder for boxed text output.
#[derive(Debug, Clone)]
pub struct BoxBuilder {
    pub title: Option<String>,
    pub lines: Vec<String>,
    pub style: BoxStyle,
    pub min_width: usize,
    pub padding: usize,
}

/// The length of the longest of the first `k` lines.
pub open spec fn max_len_upto(lines: Seq<String>, k: int) -> int
    decreases k,
{
    if k <= 0 {
        0
    } else if lines[k - 1]@.len() > max_len_upto(lines, k - 1) {
        lines[k - 1]@.len() as int
    } else {
        max_len_upto(lines, k - 1)
    }
}

pub proof fn lemma_max_len(lines: Seq<String>, k: int, i: int)
    requires
        0 <= i < k <= lines.len(),
    ensures
        lines[i]@.len() <= max_len_upto(lines, k),
        max_len_upto(lines, k) >= 0,
    decreases k,
{
    if i < k - 1 {
        lemma_max_len(lines, k - 1, i);
    }
}

pub open spec fn max3(a: int, b: int, c: int) -> int {
    let m = if a > b {
        a
    } else {
        b
    };
    if m > c {
        m
    } else {
        c
    }
}

impl BoxBuilder {
    pub open spec fn title_len(&self) -> int {
        match self.title {
            Some(t) => t@.len() as int,
            None => 0,
        }
    }

    /// The width of the content area.
    pub open spec fn content_width(&self) -> int {
        max3(
            self.min_width as int,
            self.title_len() + 4,
            max_len_upto(self.lines@, self.lines@.len() as int) + 2 * self.padding,
        )
    }

    /// The widths stay within the machine's range.
    pub open spec fn fits(&self) -> bool {
        self.title_len() + 4 <= usize::MAX && max_len_upto(self.lines@, self.lines@.len() as int)
            + 2 * self.padding <= usize::MAX
    }

    /// The centred title row and the separator below it.
    pub open spec fn title_rows(&self) -> Seq<char> {
        let (tl, tr, bl, br, h, v) = style_chars(self.style);
        let w = self.content_width();
        match self.title {
            Some(t) => {
                let left = (w - t@.len()) / 2;
                let right = w - t@.len() - left;
                v + spaces_of(left as nat) + t@ + spaces_of(right as nat) + v + newline()
                    + BOX_T_RIGHT@ + repeat(h, w as nat) + BOX_T_LEFT@ + newline()
            },
            None => seq![],
        }
    }

    /// The content rows of the first `k` lines.
    pub open spec fn line_rows(&self, k: int) -> Seq<char>
        decreases k,
    {
        if k <= 0 {
            seq![]
        } else {
            let (tl, tr, bl, br, h, v) = style_chars(self.style);
            let line = self.lines@[k - 1]@;
            let right = self.content_width() - self.padding - line.len();
            self.line_rows(k - 1) + v + spaces_of(self.padding as nat) + line + spaces_of(
                right as nat,
            ) + v + newline()
        }
    }

    /// The whole box.
    pub open spec fn text(&self) -> Seq<char> {
        let (tl, tr, bl, br, h, v) = style_chars(self.style);
        let w = self.content_width() as nat;
        tl + repeat(h, w) + tr + newline() + self.title_rows() + self.line_rows(
            self.lines@.len() as int,
        ) + bl + repeat(h, w) + br + newline()
    }

    /// A builder with no title and no lines, single style, width 20, padding 1.
    pub fn new() -> (r: BoxBuilder)
        ensures
            r.title is None,
            r.lines@.len() == 0,
            r.style == BoxStyle::Single,
            r.min_width == 20,
            r.padding == 1,
    {
        BoxBuilder { title: None, lines: Vec::new(), style: BoxStyle::Single, min_width: 20, padding: 1 }
    }

    /// Sets the title, centred at the top.
    pub fn title(self, title: &str) -> (r: BoxBuilder)
        ensures
            r.title matches Some(t) && t@ == title@,
            r.lines == self.lines,
            r.style == self.style,
            r.min_width == self.min_width,
            r.padding == self.padding,
    {
        BoxBuilder { title: Some(String::from_str(title)), ..self }
    }

    /// Adds a line of content.
    pub fn line(self, content: &str) -> (r: BoxBuilder)
        ensures
            r.lines@.len() == self.lines@.len() + 1,
            r.lines@.subrange(0, self.lines@.len() as int) == self.lines@,
            r.lines@.last()@ == content@,
            r.title == self.title,
            r.style == self.style,
            r.min_width == self.min_width,
            r.padding == self.padding,
    {
        let mut r = self;
        r.lines.push(String::from_str(content));
        assert(r.lines@.subrange(0, self.lines@.len() as int) =~= self.lines@);
        r
    }

    /// Adds several lines of content, in order.
    pub fn lines(self, lines: Vec<String>) -> (r: BoxBuilder)
        ensures
            r.lines@ == self.lines@ + lines@,
            r.title == self.title,
            r.style == self.style,
            r.min_width == self.min_width,
            r.padding == self.padding,
    {
        let mut r = self;
        let ghost added = lines@;
        let mut lines = lines;
        r.lines.append(&mut lines);
        r
    }

    /// Sets the style.
    pub fn style(self, style: BoxStyle) -> (r: BoxBuilder)
        ensures
            r.style == style,
            r.title == self.title,
            r.lines == self.lines,
            r.min_width == self.min_width,
            r.padding == self.padding,
    {
        BoxBuilder { style, ..self }
    }

    /// Sets the minimum content width (borders not included).
    pub fn min_width(self, width: usize) -> (r: BoxBuilder)
        ensures
            r.min_width == width,
            r.title == self.title,
            r.lines == self.lines,
            r.style == self.style,
            r.padding == self.padding,
    {
        BoxBuilder { min_width: width, ..self }
    }

    /// Sets the horizontal padding inside the box.
    pub fn padding(self, padding: usize) -> (r: BoxBuilder)
        ensures
            r.padding == padding,
            r.title == self.title,
            r.lines == self.lines,
            r.style == self.style,
            r.min_width == self.min_width,
    {
        BoxBuilder { padding, ..self }
    }

    fn longest_line(&self) -> (r: usize)
        ensures
            r as int == max_len_upto(self.lines@, self.lines@.len() as int),
    {
        let mut best: usize = 0;
        let mut i: usize = 0;
        while i < self.lines.len()
            invariant
                i <= self.lines@.len(),
                best as int == max_len_upto(self.lines@, i as int),
            decreases self.lines.len() - i,
        {
            let n = self.lines[i].as_str().unicode_len();
            if n > best {
                best = n;
            }
            i = i + 1;
        }
        best
    }

    /// Builds the boxed text.
    pub fn build(&self) -> (r: String)
        requires
            self.fits(),
        ensures
            r@ == self.text(),
    {
        proof {
            lemma_space();
        }
        let (tl, tr, bl, br, h, v) = self.style.chars();
        let title_len: usize = match &self.title {
            Some(t) => t.as_str().unicode_len(),
            None => 0,
        };
        let max_line_len = self.longest_line();
        let mut content_width = self.min_width;
        if title_len + 4 > content_width {
            content_width = title_len + 4;
        }
        if max_line_len + self.padding * 2 > content_width {
            content_width = max_line_len + self.padding * 2;
        }
        assert(content_width as int == self.content_width());
        let mut output = String::new();
        output.append(tl);
        push_repeat(&mut output, h, content_width);
        output.append(tr);
        push_newline(&mut output);
        let ghost top = output@;
        match &self.title {
            Some(title) => {
                let title_chars = title.as_str().unicode_len();
                let left_pad = (content_width - title_chars) / 2;
                let right_pad = content_width - title_chars - left_pad;
                push_row(&mut output, v, left_pad, title.as_str(), right_pad);
                output.append(BOX_T_RIGHT);
                push_repeat(&mut output, h, content_width);
                output.append(BOX_T_LEFT);
                push_newline(&mut output);
            },
            None => {},
        }
        assert(output@ =~= top + self.title_rows());
        let ghost head = output@;
        let mut i: usize = 0;
        while i < self.lines.len()
            invariant
                i <= self.lines@.len(),
                content_width as int == self.content_width(),
                (tl@, tr@, bl@, br@, h@, v@) == style_chars(self.style),
                self.fits(),
                output@ == head + self.line_rows(i as int),
            decreases self.lines.len() - i,
        {
            let line = self.lines[i].as_str();
            let line_chars = line.unicode_len();
            proof {
                lemma_max_len(self.lines@, self.lines@.len() as int, i as int);
            }
            let right_pad = content_width - self.padding - line_chars;
            push_row(&mut output, v, self.padding, line, right_pad);
            assert(self.line_rows(i + 1) == self.line_rows(i as int) + v@ + spaces_of(
                self.padding as nat,
            ) + line@ + spaces_of(right_pad as nat) + v@ + newline());
            assert(output@ =~= head + self.line_rows(i + 1));
            i = i + 1;
        }
        output.append(bl);
        push_repeat(&mut output, h, content_width);
        output.append(br);
        push_newline(&mut output);
        assert(output@ =~= self.text());
        output
    }
}

/// Pre-defined stamps for official-looking output.
#[derive(Debug, Clone, Copy, PartialEq, Eq, Structural)]
pub enum Stamp {
    NullBureau,
    Certified,
    Filed,
    Pending,
    Approved,
    Denied,
    Redacted,
    Void,
}

impl Stamp {
    pub open spec fn spec_text(self) -> Seq<char> {
        match self {
            Stamp::NullBureau => "NULL BUREAU - FORM RECEIVED BUT NOT READ"@,
            Stamp::Certified => "ABSURDTTY - CERTIFIED: INCONCLUSIVE"@,
            Stamp::Filed => "FILED - NO ACTION REQUIRED"@,
            Stamp::Pending => "PENDING - INDEFINITELY"@,
            Stamp::Approved => "APPROVED - MEANING UNCLEAR"@,
            Stamp::Denied => "DENIED - APPEAL UNAVAILABLE"@,
            Stamp::Redacted => "REDACTED - BY REQUEST"@,
            Stamp::Void => "VOID - RETROACTIVELY"@,
        }
    }

    /// The stamp's text.
    pub fn text(&self) -> (r: &'static str)
        ensures
            r@ == self.spec_text(),
    {
        match self {
            Stamp::NullBureau => "NULL BUREAU - FORM RECEIVED BUT NOT READ",
            Stamp::Certified => "ABSURDTTY - CERTIFIED: INCONCLUSIVE",
            Stamp::Filed => "FILED - NO ACTION REQUIRED",
            Stamp::Pending => "PENDING - INDEFINITELY",
            Stamp::Approved => "APPROVED - MEANING UNCLEAR",
            Stamp::Denied => "DENIED - APPEAL UNAVAILABLE",
            Stamp::Redacted => "REDACTED - BY REQUEST",
            Stamp::Void => "VOID - RETROACTIVELY",
        }
    }

    /// The border row of a rendered stamp: `[`, `=` across, `]`.
    pub open spec fn border(self) -> Seq<char> {
        "["@ + repeat("="@, (self.spec_text().len() + 2) as nat) + "]"@ + newline()
    }

    /// The stamp in a box of `=` signs, three rows.
    pub open spec fn rendered(self) -> Seq<char> {
        self.border() + "[ "@ + self.spec_text() + " ]"@ + newline() + self.border()
    }

    proof fn lemma_text_short(self)
        ensures
            self.spec_text().len() < 100,
    {
        reveal_strlit("NULL BUREAU - FORM RECEIVED BUT NOT READ");
        reveal_strlit("ABSURDTTY - CERTIFIED: INCONCLUSIVE");
        reveal_strlit("FILED - NO ACTION REQUIRED");
        reveal_strlit("PENDING - INDEFINITELY");
        reveal_strlit("APPROVED - MEANING UNCLEAR");
        reveal_strlit("DENIED - APPEAL UNAVAILABLE");
        reveal_strlit("REDACTED - BY REQUEST");
        reveal_strlit("VOID - RETROACTIVELY");
    }

    /// Renders the stamp as a boxed block.
    pub fn render(&self) -> (r: String)
        ensures
            r@ == self.rendered(),
    {
        proof {
            self.lemma_text_short();
        }
        let text = self.text();
        let width = text.unicode_len() + 2;
        let mut output = String::new();
        output.append("[");
        push_repeat(&mut output, "=", width);
        output.append("]");
        push_newline(&mut output);
        output.append("[ ");
        output.append(text);
        output.append(" ]");
        push_newline(&mut output);
        output.append("[");
        push_repeat(&mut output, "=", width);
        output.append("]");
        push_newline(&mut output);
        assert(output@ =~= self.rendered());
        output
    }

    /// Renders the stamp on one line: `[STAMP: text]`.
    pub fn inline(&self) -> (r: String)
        ensures
            r@ == "[STAMP: "@ + self.spec_text() + "]"@,
    {
        let mut output = String::from_str("[STAMP: ");
        output.append(self.text());
        output.append("]");
        output
    }
}

/// A key-value table.
#[derive(Debug, Clone)]
pub struct Table {
    pub rows: Vec<(String, String)>,
    pub separator: String,
    pub key_width: Option<usize>,
}

/// The length of the longest key among the first `k` rows.
pub open spec fn max_key_upto(rows: Seq<(String, String)>, k: int) -> int
    decreases k,
{
    if k <= 0 {
        0
    } else if rows[k - 1].0@.len() > max_key_upto(rows, k - 1) {
        rows[k - 1].0@.len() as int
    } else {
        max_key_upto(rows, k - 1)
    }
}

impl Table {
    /// The width of the key column.
    pub open spec fn key_column(&self) -> int {
        match self.key_width {
            Some(w) => w as int,
            None => max_key_upto(self.rows@, self.rows@.len() as int),
        }
    }

    /// The rows of the first `k` entries: the key, spaces up to the key
    /// column, the separator, the value.
    pub open spec fn rows_text(&self, k: int) -> Seq<char>
        decreases k,
    {
        if k <= 0 {
            seq![]
        } else {
            let (key, value) = self.rows@[k - 1];
            let pad = if self.key_column() > key@.len() {
                self.key_column() - key@.len()
            } else {
                0
            };
            self.rows_text(k - 1) + key@ + spaces_of(pad as nat) + self.separator@ + value@
                + newline()
        }
    }

    /// An empty table with separator `": "`.
    pub fn new() -> (r: Table)
        ensures
            r.rows@.len() == 0,
            r.separator@ == ": "@,
            r.key_width is None,
    {
        Table { rows: Vec::new(), separator: String::from_str(": "), key_width: None }
    }

    /// Adds a key-value row.
    pub fn row(self, key: &str, value: &str) -> (r: Table)
        ensures
            r.rows@.len() == self.rows@.len() + 1,
            r.rows@.subrange(0, self.rows@.len() as int) == self.rows@,
            r.rows@.last().0@ == key@,
            r.rows@.last().1@ == value@,
            r.separator == self.separator,
            r.key_width == self.key_width,
    {
        let mut r = self;
        r.rows.push((String::from_str(key), String::from_str(value)));
        assert(r.rows@.subrange(0, self.rows@.len() as int) =~= self.rows@);
        r
    }

    /// Sets the separator between key and value.
    pub fn separator(self, sep: &str) -> (r: Table)
        ensures
            r.separator@ == sep@,
            r.rows == self.rows,
            r.key_width == self.key_width,
    {
        Table { separator: String::from_str(sep), ..self }
    }

    /// Fixes the key column width.
    pub fn key_width(self, width: usize) -> (r: Table)
        ensures
            r.key_width == Some(width),
            r.rows == self.rows,
            r.separator == self.separator,
    {
        Table { key_width: Some(width), ..self }
    }

    /// Builds the table text; empty for no rows.
    pub fn build(&self) -> (r: String)
        ensures
            r@ == self.rows_text(self.rows@.len() as int),
    {
        let mut output = String::new();
        if self.rows.len() == 0 {
            return output;
        }
        let key_width: usize = match self.key_width {
            Some(w) => w,
            None => {
                let mut best: usize = 0;
                let mut i: usize = 0;
                while i < self.rows.len()
                    invariant
                        i <= self.rows@.len(),
                        best as int == max_key_upto(self.rows@, i as int),
                    decreases self.rows.len() - i,
                {
                    let n = self.rows[i].0.as_str().unicode_len();
                    if n > best {
                        best = n;
                    }
                    i = i + 1;
                }
                best
            },
        };
        assert(key_width as int == self.key_column());
        let mut i: usize = 0;
        while i < self.rows.len()
            invariant
                i <= self.rows@.len(),
                key_width as int == self.key_column(),
                output@ == self.rows_text(i as int),
            decreases self.rows.len() - i,
        {
            let key = self.rows[i].0.as_str();
            let value = self.rows[i].1.as_str();
            let key_chars = key.unicode_len();
            let padding = if key_width > key_chars {
                key_width - key_chars
            } else {
                0
            };
            let ghost before = output@;
            proof {
                lemma_space();
            }
            output.append(key);
            push_repeat(&mut output, " ", padding);
            output.append(self.separator.as_str());
            output.append(value);
            push_newline(&mut output);
            assert(output@ =~= before + (key@ + spaces_of(padding as nat) + self.separator@ + value@
                + newline()));
            assert(self.rows_text(i + 1) == self.rows_text(i as int) + key@ + spaces_of(
                padding as nat,
            ) + self.separator@ + value@ + newline());
            assert(output@ =~= self.rows_text(i + 1));
            i = i + 1;
        }
        output
    }
}

/// Indented multi-line output.
#[derive(Debug, Clone)]
pub struct Indenter {
    pub prefix: String,
    pub lines: Vec<String>,
}

impl Indenter {
    /// Each of the first `k` lines after the prefix, each ended by a newline.
    pub open spec fn text_upto(&self, k: int) -> Seq<char>
        decreases k,
    {
        if k <= 0 {
            seq![]
        } else {
            self.text_upto(k - 1) + self.prefix@ + self.lines@[k - 1]@ + newline()
        }
    }

    /// An indenter with the given prefix and no lines.
    pub fn new(prefix: &str) -> (r: Indenter)
        ensures
            r.prefix@ == prefix@,
            r.lines@.len() == 0,
    {
        Indenter { prefix: String::from_str(prefix), lines: Vec::new() }
    }

    /// An indenter whose prefix is `count` spaces.
    pub fn spaces(count: usize) -> (r: Indenter)
        ensures
            r.prefix@ == spaces_of(count as nat),
            r.lines@.len() == 0,
    {
        proof {
            lemma_space();
        }
        let mut prefix = String::new();
        push_repeat(&mut prefix, " ", count);
        Indenter { prefix, lines: Vec::new() }
    }

    /// Adds a line.
    pub fn line(self, content: &str) -> (r: Indenter)
        ensures
            r.lines@.len() == self.lines@.len() + 1,
            r.lines@.subrange(0, self.lines@.len() as int) == self.lines@,
            r.lines@.last()@ == content@,
            r.prefix == self.prefix,
    {
        let mut r = self;
        r.lines.push(String::from_str(content));
        assert(r.lines@.subrange(0, self.lines@.len() as int) =~= self.lines@);
        r
    }

    /// Adds several lines, in order.
    pub fn lines(self, lines: Vec<String>) -> (r: Indenter)
        ensures
            r.lines@ == self.lines@ + lines@,
            r.prefix == self.prefix,
    {
        let mut r = self;
        let mut lines = lines;
        r.lines.append(&mut lines);
        r
    }

    /// Builds the indented text.
    pub fn build(&self) -> (r: String)
        ensures
            r@ == self.text_upto(self.lines@.len() as int),
    {
        let mut output = String::new();
        let mut i: usize = 0;
        while i < self.lines.len()
            invariant
                i <= self.lines@.len(),
                output@ == self.text_upto(i as int),
            decreases self.lines.len() - i,
        {
            output.append(self.prefix.as_str());
            output.append(self.lines[i].as_str());
            push_newline(&mut output);
            assert(output@ =~= self.text_upto(i + 1));
            i = i + 1;
        }
        output
    }
}

/// `s` cut to `max_width` characters, its last one replaced by an ellipsis
/// when it was cut.
pub open spec fn truncated(s: Seq<char>, max_width: int) -> Seq<char> {
    if s.len() <= max_width {
        s
    } else if max_width <= 1 {
        ELLIPSIS@
    } else {
        s.subrange(0, max_width - 1) + ELLIPSIS@
    }
}

/// Truncates a string to at most `max_width` characters, with an ellipsis if cut.
pub fn truncate(s: &str, max_width: usize) -> (r: String)
    ensures
        r@ == truncated(s@, max_width as int),
{
    let n = s.unicode_len();
    if n <= max_width {
        String::from_str(s)
    } else if max_width <= 1 {
        String::from_str(ELLIPSIS)
    } else {
        let mut r = String::from_str(s.substring_char(0, max_width - 1));
        r.append(ELLIPSIS);
        r
    }
}

/// `s` with spaces around it up to `width`, the extra one on the right.
pub open spec fn centered(s: Seq<char>, width: int) -> Seq<char> {
    if s.len() >= width {
        s
    } else {
        let left = (width - s.len()) / 2;
        spaces_of(left as nat) + s + spaces_of((width - s.len() - left) as nat)
    }
}

/// Centres a string within `width` characters.
pub fn center(s: &str, width: usize) -> (r: String)
    ensures
        r@ == centered(s@, width as int),
{
    let char_count = s.unicode_len();
    if char_count >= width {
        return String::from_str(s);
    }
    let left_pad = (width - char_count) / 2;
    let right_pad = width - char_count - left_pad;
    let mut r = String::new();
    push_repeat(&mut r, " ", left_pad);
    r.append(s);
    push_repeat(&mut r, " ", right_pad);
    proof {
        lemma_space();
    }
    assert(r@ =~= centered(s@, width as int));
    r
}

/// `s` with spaces before it up to `width`.
pub open spec fn right_aligned(s: Seq<char>, width: int) -> Seq<char> {
    if s.len() >= width {
        s
    } else {
        spaces_of((width - s.len()) as nat) + s
    }
}

/// Right-aligns a string within `width` characters.
pub fn right_align(s: &str, width: usize) -> (r: String)
    ensures
        r@ == right_aligned(s@, width as int),
{
    let char_count = s.unicode_len();
    if char_count >= width {
        return String::from_str(s);
    }
    let mut r = String::new();
    push_repeat(&mut r, " ", width - char_count);
    r.append(s);
    proof {
        lemma_space();
    }
    assert(r@ =~= right_aligned(s@, width as int));
    r
}

/// A horizontal rule of `width` single lines.
pub fn hrule(width: usize) -> (r: String)
    ensures
        r@ == repeat(BOX_H@, width as nat),
{
    let mut r = String::new();
    push_repeat(&mut r, BOX_H, width);
    assert(r@ =~= repeat(BOX_H@, width as nat));
    r
}

/// A horizontal rule of `width` double lines.
pub fn hrule_double(width: usize) -> (r: String)
    ensures
        r@ == repeat(DBOX_H@, width as nat),
{
    let mut r = String::new();
    push_repeat(&mut r, DBOX_H, width);
    assert(r@ =~= repeat(DBOX_H@, width as nat));
    r
}

} // verus!
