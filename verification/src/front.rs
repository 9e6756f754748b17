//! The HTTP front's startup decisions: which address and port to bind when
//! the environment names none, and how a port setting is read.

use vstd::prelude::*;

verus! {

/// The bind address: the configured one, or the loopback default.
pub fn bind_host(v: Option<String>) -> (r: String)
    ensures
        match v {
            Some(h) => r == h,
            None => r@ == "127.0.0.1"@,
        },
{
    match v {
        Some(h) => h,
        None => "127.0.0.1".to_owned(),
    }
}

/// The decimal value accumulated from position `i`, starting at `acc`:
/// `None` on a non-digit or once the value leaves `u16`.
pub open spec fn dec_u16_at(s: Seq<char>, i: int, acc: u32) -> Option<u16>
    decreases s.len() - i,
    when 0 <= i <= s.len() && acc <= 0xFFFF
{
    if i >= s.len() {
        Some(acc as u16)
    } else if '0' <= s[i] && s[i] <= '9' {
        let d = s[i] as u32 - '0' as u32;
        if acc * 10 + d > 0xFFFF {
            None
        } else {
            dec_u16_at(s, i + 1, (acc * 10 + d) as u32)
        }
    } else {
        None
    }
}

/// The port named by a string, as `str::parse::<u16>` reads it: an optional
/// leading `+`, then at least one decimal digit, with the value in range.
pub open spec fn spec_parse_u16(s: Seq<char>) -> Option<u16> {
    if s.len() == 0 {
        None
    } else {
        let start: int = if s[0] == '+' {
            1
        } else {
            0
        };
        if s.len() == start {
            None
        } else {
            dec_u16_at(s, start, 0)
        }
    }
}

/// Reads a port number from a string.
pub fn parse_u16(s: &str) -> (r: Option<u16>)
    ensures
        r == spec_parse_u16(s@),
{
    let n = s.unicode_len();
    if n == 0 {
        return None;
    }
    let start: usize = if s.get_char(0) == '+' {
        1
    } else {
        0
    };
    if n == start {
        return None;
    }
    let mut i = start;
    let mut acc: u32 = 0;
    while i < n
        invariant
            n == s@.len(),
            start <= i <= n,
            acc <= 0xFFFF,
            spec_parse_u16(s@) == dec_u16_at(s@, start as int, 0),
            dec_u16_at(s@, start as int, 0) == dec_u16_at(s@, i as int, acc),
        decreases n - i,
    {
        let c = s.get_char(i);
        if !('0' <= c && c <= '9') {
            return None;
        }
        let d = c as u32 - '0' as u32;
        if acc * 10 + d > 0xFFFF {
            return None;
        }
        acc = acc * 10 + d;
        i += 1;
    }
    Some(acc as u16)
}

/// The bind port: the configured one when it reads as a port number, else
/// the default `8080`.
pub open spec fn spec_bind_port(v: Option<Seq<char>>) -> u16 {
    match v {
        Some(s) => match spec_parse_u16(s) {
            Some(p) => p,
            None => 8080,
        },
        None => 8080,
    }
}

/// Picks the bind port from the environment's setting.
pub fn bind_port(v: Option<&str>) -> (r: u16)
    ensures
        r == spec_bind_port(
            match v {
                Some(s) => Some(s@),
                None => None,
            },
        ),
{
    match v {
        Some(s) => match parse_u16(s) {
            Some(p) => p,
            None => 8080,
        },
        None => 8080,
    }
}

} // verus!
