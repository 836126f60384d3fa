//! Fixed replies of the mood-adapted commands that need no randomness.
use vstd::prelude::*;
use vstd::string::StringExecFns;
use crate::format::{push_repeat, repeat, BOX_H};
use crate::text::{decimal, push_decimal};

verus! {

/// The status reply when no mood is known.
pub fn boring_status() -> (r: String)
    ensures
        r@ == "System operational.\n"@,
{
    String::from_str("System operational.\n")
}

pub open spec fn boring_doctor_text() -> Seq<char> {
    "DIAGNOSIS: No mood signature found.\n"@ + "PRESCRIPTION: Run 'tty-mood generate' first.\n"@
        + "PROGNOSIS: Boring until remedied.\n"@
}

/// The doctor reply when no mood is known.
pub fn boring_doctor() -> (r: String)
    ensures
        r@ == boring_doctor_text(),
{
    let mut output = String::new();
    output.append("DIAGNOSIS: No mood signature found.\n");
    output.append("PRESCRIPTION: Run 'tty-mood generate' first.\n");
    output.append("PROGNOSIS: Boring until remedied.\n");
    assert(output@ =~= boring_doctor_text());
    output
}

pub open spec fn number_word(n: int) -> Seq<char> {
    if n == 0 {
        "zero"@
    } else if n == 1 {
        "one"@
    } else if n == 2 {
        "two"@
    } else if n == 3 {
        "three"@
    } else if n == 4 {
        "four"@
    } else if n == 5 {
        "five"@
    } else if n == 6 {
        "six"@
    } else if n == 7 {
        "seven"@
    } else if n == 8 {
        "eight"@
    } else if n == 9 {
        "nine"@
    } else if n == 10 {
        "ten"@
    } else {
        "many"@
    }
}

/// A number from zero to ten in words; `many` above.
pub fn spell_number(n: usize) -> (r: &'static str)
    ensures
        r@ == number_word(n as int),
{
    if n == 0 {
        "zero"
    } else if n == 1 {
        "one"
    } else if n == 2 {
        "two"
    } else if n == 3 {
        "three"
    } else if n == 4 {
        "four"
    } else if n == 5 {
        "five"
    } else if n == 6 {
        "six"
    } else if n == 7 {
        "seven"
    } else if n == 8 {
        "eight"
    } else if n == 9 {
        "nine"
    } else if n == 10 {
        "ten"
    } else {
        "many"
    }
}

/// An uptime in days, hours and minutes, leaving out leading zero units.
pub open spec fn uptime_text(total: nat) -> Seq<char> {
    let days = total / 86400;
    let hours = (total % 86400) / 3600;
    let mins = (total % 3600) / 60;
    if days > 0 {
        decimal(days) + " days, "@ + decimal(hours) + " hours, "@ + decimal(mins) + " minutes"@
    } else if hours > 0 {
        decimal(hours) + " hours, "@ + decimal(mins) + " minutes"@
    } else {
        decimal(mins) + " minutes"@
    }
}

/// Formats an uptime given in seconds.
pub fn format_uptime(total_secs: u64) -> (r: String)
    ensures
        r@ == uptime_text(total_secs as nat),
{
    let days = total_secs / 86400;
    let hours = (total_secs % 86400) / 3600;
    let mins = (total_secs % 3600) / 60;
    let mut out = String::new();
    if days > 0 {
        push_decimal(&mut out, days);
        out.append(" days, ");
        push_decimal(&mut out, hours);
        out.append(" hours, ");
    } else if hours > 0 {
        push_decimal(&mut out, hours);
        out.append(" hours, ");
    }
    push_decimal(&mut out, mins);
    out.append(" minutes");
    assert(out@ =~= uptime_text(total_secs as nat));
    out
}

pub open spec fn rule_line() -> Seq<char> {
    repeat(BOX_H@, 30) + seq!['\n']
}

pub open spec fn uptime_methodical_text(uptime: Seq<char>) -> Seq<char> {
    "SYSTEM UPTIME REPORT\n"@ + rule_line() + "Current uptime: "@ + uptime + "\n"@
        + "Status: NOMINAL\n"@ + "Last reboot: LOGGED\n"@ + rule_line() + "Report filed.\n"@
}

/// The uptime report in the methodical mood.
pub fn uptime_methodical(uptime: &str) -> (r: String)
    ensures
        r@ == uptime_methodical_text(uptime@),
{
    proof {
        reveal_strlit("\n");
    }
    let mut out = String::from_str("SYSTEM UPTIME REPORT\n");
    let ghost a = out@;
    push_repeat(&mut out, BOX_H, 30);
    out.append("\n");
    let ghost b = out@;
    assert(b =~= a + rule_line());
    out.append("Current uptime: ");
    out.append(uptime);
    out.append("\n");
    out.append("Status: NOMINAL\n");
    out.append("Last reboot: LOGGED\n");
    let ghost c = out@;
    push_repeat(&mut out, BOX_H, 30);
    out.append("\n");
    assert(out@ =~= c + rule_line());
    out.append("Report filed.\n");
    assert(out@ =~= uptime_methodical_text(uptime@));
    out
}

pub open spec fn uptime_bureaucratic_text(uptime: Seq<char>) -> Seq<char> {
    "FORM U-001: UPTIME DECLARATION\n"@ + "══════════════════════════════\n\n"@ + "System Uptime: "@
        + uptime + "\n"@ + "Verification: AUTOMATIC\n"@ + "Filing Status: RECORDED\n\n"@
        + "This uptime is hereby declared for the record.\n"@ + "No action required.\n"@
}

/// The uptime report in the bureaucratic mood.
pub fn uptime_bureaucratic(uptime: &str) -> (r: String)
    ensures
        r@ == uptime_bureaucratic_text(uptime@),
{
    let mut out = String::from_str("FORM U-001: UPTIME DECLARATION\n");
    out.append("══════════════════════════════\n\n");
    out.append("System Uptime: ");
    out.append(uptime);
    out.append("\n");
    out.append("Verification: AUTOMATIC\n");
    out.append("Filing Status: RECORDED\n\n");
    out.append("This uptime is hereby declared for the record.\n");
    out.append("No action required.\n");
    assert(out@ =~= uptime_bureaucratic_text(uptime@));
    out
}

/// The uptime report in the drifting mood.
pub fn uptime_drift(uptime: &str) -> (r: String)
    ensures
        r@ == "uptime: "@ + uptime@ + "\ntime passes...\n"@,
{
    let mut out = String::from_str("uptime: ");
    out.append(uptime);
    out.append("\ntime passes...\n");
    out
}

/// The uptime report in emergency mode.
pub fn uptime_emergency(uptime: &str) -> (r: String)
    ensures
        r@ == "UPTIME: "@ + uptime@ + "\n[NOTED - MOVING ON]\n"@,
{
    let mut out = String::from_str("UPTIME: ");
    out.append(uptime);
    out.append("\n[NOTED - MOVING ON]\n");
    out
}

} // verus!
