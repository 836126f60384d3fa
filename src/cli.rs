//! Values read from the command line: output formats and time ranges.
use vstd::prelude::*;
use vstd::string::{StrSliceExecFns, StringExecFns};
use crate::text::{parse_unsigned, parsed_unsigned, trim, trimmed};

verus! {

/// The lowercase form of a text, as Unicode defines it.
pub uninterp spec fn lower_of(s: Seq<char>) -> Seq<char>;

/// Relies on `str::to_lowercase`: the lowercase form depends on the
/// characters alone.
#[verifier::external_body]
fn lowercase(s: &str) -> (r: String)
    ensures
        r@ == lower_of(s@),
{
    s.to_lowercase()
}

/// Output format of a report.
#[derive(Clone, Copy, Debug, Default, PartialEq, Eq, Structural)]
pub enum OutputFormat {
    #[default]
    Text,
    Json,
}

impl OutputFormat {
    /// The format named by an already lowercased name.
    pub open spec fn named(name: Seq<char>) -> Option<OutputFormat> {
        if name == "text"@ {
            Some(OutputFormat::Text)
        } else if name == "json"@ {
            Some(OutputFormat::Json)
        } else {
            None
        }
    }

    /// The format named by a lowercased name; the error names the unknown one.
    pub fn from_lowered(name: &str, given: &str) -> (r: Result<OutputFormat, String>)
        ensures
            match r {
                Ok(f) => Self::named(name@) == Some(f),
                Err(msg) => Self::named(name@) is None && msg@ == "Unknown format: "@ + given@
                    + ". Use 'text' or 'json'."@,
            },
    {
        if crate::text::same_text(name, "text") {
            Ok(OutputFormat::Text)
        } else if crate::text::same_text(name, "json") {
            Ok(OutputFormat::Json)
        } else {
            let mut msg = String::from_str("Unknown format: ");
            msg.append(given);
            msg.append(". Use 'text' or 'json'.");
            Err(msg)
        }
    }

    /// The format named by `s`, in any case.
    pub fn from_name(s: &str) -> (r: Result<OutputFormat, String>)
        ensures
            match r {
                Ok(f) => Self::named(lower_of(s@)) == Some(f),
                Err(msg) => Self::named(lower_of(s@)) is None,
            },
    {
        let lowered = lowercase(s);
        Self::from_lowered(lowered.as_str(), s)
    }
}

impl std::str::FromStr for OutputFormat {
    type Err = String;

    fn from_str(s: &str) -> Result<OutputFormat, String> {
        OutputFormat::from_name(s)
    }
}

/// Why a time range was rejected.
#[derive(Clone, Debug, PartialEq, Eq)]
pub enum RangeError {
    /// A count of days (`d`) or weeks (`w`) that is not a valid number
    InvalidCount(String),
    /// Neither a suffixed count nor a plain number of days
    InvalidFormat(String),
}

impl RangeError {
    /// The message for the user.
    pub fn message(&self) -> (r: String)
        ensures
            match self {
                RangeError::InvalidCount(range) => r@ == "Invalid range: "@ + range@,
                RangeError::InvalidFormat(range) => r@ == "Invalid range: "@ + range@
                    + ". Use format like '7d' or '2w'."@,
            },
    {
        let mut msg = String::from_str("Invalid range: ");
        match self {
            RangeError::InvalidCount(range) => {
                msg.append(range.as_str());
            },
            RangeError::InvalidFormat(range) => {
                msg.append(range.as_str());
                msg.append(". Use format like '7d' or '2w'.");
            },
        }
        msg
    }
}

/// Whether the text ends with the character.
pub open spec fn ends_with(r: Seq<char>, c: char) -> bool {
    r.len() > 0 && r.last() == c
}

/// The number of days that a lowercased, trimmed range stands for: `Nd`
/// days, `Nw` weeks, or a plain number of days; `None` where the number is
/// not a `u32` or the weeks come to more days than a `u32` holds.
pub open spec fn range_days(r: Seq<char>) -> Option<int> {
    if ends_with(r, 'd') {
        parsed_unsigned(r.drop_last(), u32::MAX as int)
    } else if ends_with(r, 'w') {
        match parsed_unsigned(r.drop_last(), u32::MAX as int) {
            Some(w) => if 7 * w <= u32::MAX {
                Some(7 * w)
            } else {
                None
            },
            None => None,
        }
    } else {
        parsed_unsigned(r, u32::MAX as int)
    }
}

/// Parses a range that is already trimmed and lowercased.
pub fn parse_lowered_range(range: &str) -> (r: Result<u32, RangeError>)
    ensures
        match r {
            Ok(days) => range_days(range@) == Some(days as int),
            Err(e) => range_days(range@) is None && match e {
                RangeError::InvalidCount(s) => s@ == range@ && (ends_with(range@, 'd')
                    || ends_with(range@, 'w')),
                RangeError::InvalidFormat(s) => s@ == range@ && !(ends_with(range@, 'd')
                    || ends_with(range@, 'w')),
            },
        },
{
    let n = range.unicode_len();
    let last = if n > 0 {
        range.get_char(n - 1)
    } else {
        ' '
    };
    if n > 0 && (last == 'd' || last == 'w') {
        let count = range.substring_char(0, n - 1);
        assert(count@ =~= range@.drop_last());
        match parse_unsigned(count, 0xffff_ffff) {
            Some(v) => {
                if last == 'd' {
                    Ok(v as u32)
                } else if v <= 0xffff_ffff / 7 {
                    Ok((v * 7) as u32)
                } else {
                    Err(RangeError::InvalidCount(String::from_str(range)))
                }
            },
            None => Err(RangeError::InvalidCount(String::from_str(range))),
        }
    } else {
        match parse_unsigned(range, 0xffff_ffff) {
            Some(v) => Ok(v as u32),
            None => Err(RangeError::InvalidFormat(String::from_str(range))),
        }
    }
}

/// Parses a time range such as `7d`, `2w` or `30` into a number of days,
/// ignoring surrounding white space and case.
pub fn parse_range(range: &str) -> (r: Result<u32, RangeError>)
    ensures
        match r {
            Ok(days) => range_days(lower_of(trimmed(range@))) == Some(days as int),
            Err(_) => range_days(lower_of(trimmed(range@))) is None,
        },
{
    let lowered = lowercase(trim(range));
    parse_lowered_range(lowered.as_str())
}

} // verus!
