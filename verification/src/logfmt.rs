//! The logger's formatting rules: the level tag, the target fallback, the
//! decimal line number, and the assembled log line. Writing the line to
//! standard error is the host's business; its text is decided here.

use vstd::prelude::*;

use crate::outside::chars_to_string;
use crate::strutil::{str_starts_with, str_to_chars};
use vstd::string::StringExecFns;

verus! {

/// A log severity, highest first.
#[derive(Debug, Clone, Copy, PartialEq, Eq, Structural)]
pub enum LogLevel {
    Error,
    Warn,
    Info,
    Debug,
    Trace,
}

/// The logger: it accepts everything up to `Debug` and drops `Trace`.
pub struct Logger;

/// The tag written for each severity.
pub open spec fn spec_level_tag(l: LogLevel) -> Seq<char> {
    match l {
        LogLevel::Error => "❌ ERROR"@,
        LogLevel::Warn => "⚠️ WARN"@,
        LogLevel::Info => "ℹ️ INFO"@,
        LogLevel::Debug => "🔍 DEBUG"@,
        LogLevel::Trace => "🔎 TRACE"@,
    }
}

/// The target written for a record: the record's own when it is already
/// under `rilot`, the bare crate name otherwise.
pub open spec fn spec_log_target(t: Seq<char>) -> Seq<char> {
    if "rilot"@.is_prefix_of(t) {
        t
    } else {
        "rilot"@
    }
}

/// The decimal digits of a number, most significant first.
pub open spec fn dec_str(n: nat) -> Seq<char>
    decreases n,
{
    if n < 10 {
        seq![(('0' as u32) + n) as char]
    } else {
        dec_str(n / 10).push((('0' as u32) + (n % 10)) as char)
    }
}

/// Writes one decimal digit.
fn dec_digit(d: u32) -> (r: char)
    requires
        d < 10,
    ensures
        r == ((('0' as u32) + d) as char),
{
    (('0' as u8) + (d as u8)) as char
}

/// Renders a number in decimal.
pub fn u32_to_dec(n: u32) -> (r: String)
    ensures
        r@ == dec_str(n as nat),
{
    let mut digits: Vec<char> = Vec::new();
    let mut m = n;
    proof {
        assert(digits@.reverse() =~= Seq::<char>::empty());
        assert(dec_str(n as nat) =~= dec_str(m as nat) + digits@.reverse());
    }
    while m >= 10
        invariant
            dec_str(n as nat) == dec_str(m as nat) + digits@.reverse(),
        decreases m,
    {
        let ghost before = digits@;
        digits.push(dec_digit(m % 10));
        proof {
            assert(digits@.reverse() =~= seq![(('0' as u32) + (m as nat % 10)) as char]
                + before.reverse());
            assert(dec_str(m as nat) == dec_str(m as nat / 10).push(
                (('0' as u32) + (m as nat % 10)) as char,
            ));
            assert(dec_str(m as nat / 10) + digits@.reverse() =~= dec_str(m as nat)
                + before.reverse());
        }
        m = m / 10;
    }
    let ghost before = digits@;
    digits.push(dec_digit(m));
    proof {
        assert(digits@.reverse() =~= seq![(('0' as u32) + (m as nat)) as char] + before.reverse());
        assert(dec_str(m as nat) =~= seq![(('0' as u32) + (m as nat)) as char]);
        assert(digits@.reverse() =~= dec_str(n as nat));
    }
    let k = digits.len();
    let mut out: Vec<char> = Vec::new();
    let mut i: usize = 0;
    while i < k
        invariant
            k == digits@.len(),
            0 <= i <= k,
            out@.len() == i,
            forall|j: int| 0 <= j < i ==> out@[j] == digits@[k - 1 - j],
        decreases k - i,
    {
        out.push(digits[k - 1 - i]);
        i += 1;
    }
    proof {
        assert(out@ =~= digits@.reverse());
    }
    chars_to_string(out)
}

/// The whole log line: timestamp, tag, source location, target and message,
/// ended by a newline.
pub open spec fn spec_log_line(
    timestamp: Seq<char>,
    level: LogLevel,
    file: Seq<char>,
    line: u32,
    target: Seq<char>,
    msg: Seq<char>,
) -> Seq<char> {
    timestamp + " "@ + spec_level_tag(level) + " ["@ + file + ":"@ + dec_str(line as nat) + "] "@
        + spec_log_target(target) + ": "@ + msg + "\n"@
}

impl Logger {
    /// Accepts every record up to `Debug`; `Trace` records are dropped.
    pub fn enabled(&self, level: LogLevel) -> (r: bool)
        ensures
            r == (level != LogLevel::Trace),
    {
        match level {
            LogLevel::Trace => false,
            _ => true,
        }
    }

    /// Writes the tag for a severity.
    pub fn level_tag(&self, level: LogLevel) -> (r: String)
        ensures
            r@ == spec_level_tag(level),
    {
        match level {
            LogLevel::Error => "❌ ERROR".to_owned(),
            LogLevel::Warn => "⚠️ WARN".to_owned(),
            LogLevel::Info => "ℹ️ INFO".to_owned(),
            LogLevel::Debug => "🔍 DEBUG".to_owned(),
            LogLevel::Trace => "🔎 TRACE".to_owned(),
        }
    }

    /// Picks the target written for a record.
    pub fn log_target(&self, target: &str) -> (r: String)
        ensures
            r@ == spec_log_target(target@),
    {
        if str_starts_with(target, "rilot") {
            target.to_owned()
        } else {
            "rilot".to_owned()
        }
    }

    /// Formats one record as the line written to standard error.
    pub fn format_line(
        &self,
        timestamp: &str,
        level: LogLevel,
        file: &str,
        line: u32,
        target: &str,
        msg: &str,
    ) -> (r: String)
        ensures
            r@ == spec_log_line(timestamp@, level, file@, line, target@, msg@),
    {
        let mut out = timestamp.to_owned();
        out.append(" ");
        out.append(self.level_tag(level).as_str());
        out.append(" [");
        out.append(file);
        out.append(":");
        out.append(u32_to_dec(line).as_str());
        out.append("] ");
        out.append(self.log_target(target).as_str());
        out.append(": ");
        out.append(msg);
        out.append("\n");
        proof {
            assert(out@ =~= spec_log_line(timestamp@, level, file@, line, target@, msg@));
        }
        out
    }
}

} // verus!
