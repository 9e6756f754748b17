//! A verified scanner for the JSON carried over the guest's stdio pipes.
//!
//! The specification functions named `*_at` define the grammar directly over
//! a character sequence and a position; each executable function returns
//! exactly what its specification function denotes. Positions in the
//! specification are kept inside the input by `pos_in`, which executable
//! results never trigger: every scanner returns an in-range position.

use vstd::prelude::*;

verus! {

/// JSON's whitespace characters.
pub open spec fn is_json_ws(c: char) -> bool {
    c == ' ' || c == '\t' || c == '\n' || c == '\r'
}

/// Clamps a position into `[lo, hi]`.
pub open spec fn pos_in(j: int, lo: int, hi: int) -> int {
    if j < lo {
        lo
    } else if j > hi {
        hi
    } else {
        j
    }
}

/// The position after the whitespace run starting at `i`.
pub open spec fn ws_at(s: Seq<char>, i: int) -> int
    decreases s.len() - i,
    when 0 <= i <= s.len()
{
    if i < s.len() && is_json_ws(s[i]) {
        ws_at(s, i + 1)
    } else {
        i
    }
}

/// Skips whitespace.
pub fn scan_ws(chars: &Vec<char>, i: usize) -> (r: usize)
    requires
        i <= chars@.len(),
    ensures
        r == ws_at(chars@, i as int),
        i <= r <= chars@.len(),
{
    let n = chars.len();
    let mut j = i;
    while j < n && (chars[j] == ' ' || chars[j] == '\t' || chars[j] == '\n' || chars[j] == '\r')
        invariant
            n == chars@.len(),
            i <= j <= n,
            ws_at(chars@, i as int) == ws_at(chars@, j as int),
        decreases n - j,
    {
        j += 1;
    }
    j
}

/// The numeric value of one hexadecimal digit.
pub open spec fn hex_val(c: char) -> Option<u32> {
    if '0' <= c && c <= '9' {
        Some((c as u32 - '0' as u32) as u32)
    } else if 'a' <= c && c <= 'f' {
        Some((c as u32 - 'a' as u32 + 10) as u32)
    } else if 'A' <= c && c <= 'F' {
        Some((c as u32 - 'A' as u32 + 10) as u32)
    } else {
        None
    }
}

/// Reads one hexadecimal digit.
pub fn scan_hex_digit(c: char) -> (r: Option<u32>)
    ensures
        r == hex_val(c),
        r matches Some(v) ==> v < 16,
{
    if '0' <= c && c <= '9' {
        Some(c as u32 - '0' as u32)
    } else if 'a' <= c && c <= 'f' {
        Some(c as u32 - 'a' as u32 + 10)
    } else if 'A' <= c && c <= 'F' {
        Some(c as u32 - 'A' as u32 + 10)
    } else {
        None
    }
}

/// The value of the four hexadecimal digits at `i`, when they are there.
pub open spec fn hex4_at(s: Seq<char>, i: int) -> Option<u32> {
    if i + 4 <= s.len() {
        match (hex_val(s[i]), hex_val(s[i + 1]), hex_val(s[i + 2]), hex_val(s[i + 3])) {
            (Some(a), Some(b), Some(c), Some(d)) => Some(
                (a * 0x1000 + b * 0x100 + c * 0x10 + d) as u32,
            ),
            _ => None,
        }
    } else {
        None
    }
}

/// Reads four hexadecimal digits.
pub fn scan_hex4(chars: &Vec<char>, i: usize) -> (r: Option<u32>)
    requires
        i <= chars@.len(),
    ensures
        r == hex4_at(chars@, i as int),
        r matches Some(v) ==> v <= 0xFFFF,
{
    if chars.len() < 4 || i > chars.len() - 4 {
        return None;
    }
    let a = scan_hex_digit(chars[i]);
    let b = scan_hex_digit(chars[i + 1]);
    let c = scan_hex_digit(chars[i + 2]);
    let d = scan_hex_digit(chars[i + 3]);
    match (a, b, c, d) {
        (Some(a), Some(b), Some(c), Some(d)) => Some(a * 0x1000 + b * 0x100 + c * 0x10 + d),
        _ => None,
    }
}

/// The decoded string body starting at `i` (just past the opening quote),
/// with `acc` already decoded: the remaining characters and the position
/// after the closing quote.
pub open spec fn string_body_at(s: Seq<char>, i: int, acc: Seq<char>) -> Option<(Seq<char>, int)>
    decreases s.len() - i,
    when 0 <= i <= s.len()
{
    if i >= s.len() {
        None
    } else {
        let c = s[i];
        if c == '"' {
            Some((acc, i + 1))
        } else if c == '\\' {
            if i + 1 >= s.len() {
                None
            } else {
                let e = s[i + 1];
                if e == '"' {
                    string_body_at(s, i + 2, acc.push('"'))
                } else if e == '\\' {
                    string_body_at(s, i + 2, acc.push('\\'))
                } else if e == '/' {
                    string_body_at(s, i + 2, acc.push('/'))
                } else if e == 'b' {
                    string_body_at(s, i + 2, acc.push('\u{0008}'))
                } else if e == 'f' {
                    string_body_at(s, i + 2, acc.push('\u{000C}'))
                } else if e == 'n' {
                    string_body_at(s, i + 2, acc.push('\n'))
                } else if e == 'r' {
                    string_body_at(s, i + 2, acc.push('\r'))
                } else if e == 't' {
                    string_body_at(s, i + 2, acc.push('\t'))
                } else if e == 'u' {
                    match hex4_at(s, i + 2) {
                        None => None,
                        Some(v) => {
                            if v < 0xD800 || v >= 0xE000 {
                                string_body_at(s, i + 6, acc.push(v as char))
                            } else if v < 0xDC00 {
                                // a high surrogate must pair with a following low one
                                if i + 8 <= s.len() && s[i + 6] == '\\' && s[i + 7] == 'u' {
                                    match hex4_at(s, i + 8) {
                                        Some(w) => if 0xDC00 <= w && w < 0xE000 {
                                            string_body_at(
                                                s,
                                                i + 12,
                                                acc.push(
                                                    (0x10000 + (v - 0xD800) * 0x400 + (w
                                                        - 0xDC00)) as char,
                                                ),
                                            )
                                        } else {
                                            None
                                        },
                                        None => None,
                                    }
                                } else {
                                    None
                                }
                            } else {
                                None
                            }
                        },
                    }
                } else {
                    None
                }
            }
        } else if (c as u32) < 0x20 {
            None
        } else {
            string_body_at(s, i + 1, acc.push(c))
        }
    }
}

/// The decoded JSON string starting at `i` (at its opening quote) and the
/// position after its closing quote.
pub open spec fn string_at(s: Seq<char>, i: int) -> Option<(Seq<char>, int)> {
    if 0 <= i < s.len() && s[i] == '"' {
        string_body_at(s, i + 1, Seq::empty())
    } else {
        None
    }
}

/// Reads one JSON string.
pub fn scan_string(chars: &Vec<char>, i: usize) -> (r: Option<(Vec<char>, usize)>)
    requires
        i <= chars@.len(),
    ensures
        match r {
            Some((cs, j)) => string_at(chars@, i as int) == Some((cs@, j as int)) && i < j
                <= chars@.len(),
            None => string_at(chars@, i as int) is None,
        },
{
    let n = chars.len();
    if i >= n || chars[i] != '"' {
        return None;
    }
    let mut acc: Vec<char> = Vec::new();
    let mut j = i + 1;
    loop
        invariant
            n == chars@.len(),
            i < n,
            chars@[i as int] == '"',
            i + 1 <= j <= n,
            string_body_at(chars@, i + 1, Seq::empty()) == string_body_at(
                chars@,
                j as int,
                acc@,
            ),
        decreases n - j,
    {
        if j >= n {
            return None;
        }
        let c = chars[j];
        if c == '"' {
            return Some((acc, j + 1));
        } else if c == '\\' {
            if j + 1 >= n {
                return None;
            }
            let e = chars[j + 1];
            if e == '"' {
                acc.push('"');
                j += 2;
            } else if e == '\\' {
                acc.push('\\');
                j += 2;
            } else if e == '/' {
                acc.push('/');
                j += 2;
            } else if e == 'b' {
                acc.push('\u{0008}');
                j += 2;
            } else if e == 'f' {
                acc.push('\u{000C}');
                j += 2;
            } else if e == 'n' {
                acc.push('\n');
                j += 2;
            } else if e == 'r' {
                acc.push('\r');
                j += 2;
            } else if e == 't' {
                acc.push('\t');
                j += 2;
            } else if e == 'u' {
                match scan_hex4(chars, j + 2) {
                    None => {
                        return None;
                    },
                    Some(v) => {
                        if v < 0xD800 || v >= 0xE000 {
                            match crate::outside::char_from_u32(v) {
                                Some(ch) => {
                                    proof {
                                        vstd::utf8::char_u32_cast(ch, v);
                                    }
                                    acc.push(ch);
                                    j += 6;
                                },
                                None => {
                                    proof {
                                        assert(false);
                                    }
                                },
                            }
                        } else if v < 0xDC00 {
                            if n >= 8 && j <= n - 8 && chars[j + 6] == '\\' && chars[j + 7] == 'u' {
                                match scan_hex4(chars, j + 8) {
                                    Some(w) => {
                                        if 0xDC00 <= w && w < 0xE000 {
                                            let cp: u32 = 0x10000 + (v - 0xD800) * 0x400 + (w
                                                - 0xDC00);
                                            match crate::outside::char_from_u32(cp) {
                                                Some(ch) => {
                                                    proof {
                                                        vstd::utf8::char_u32_cast(ch, cp);
                                                    }
                                                    acc.push(ch);
                                                    j += 12;
                                                },
                                                None => {
                                                    proof {
                                                        assert(false);
                                                    }
                                                },
                                            }
                                        } else {
                                            return None;
                                        }
                                    },
                                    None => {
                                        return None;
                                    },
                                }
                            } else {
                                return None;
                            }
                        } else {
                            return None;
                        }
                    },
                }
            } else {
                return None;
            }
        } else if (c as u32) < 0x20 {
            return None;
        } else {
            acc.push(c);
            j += 1;
        }
    }
}

/// The position after the digit run starting at `i`.
pub open spec fn digits_at(s: Seq<char>, i: int) -> int
    decreases s.len() - i,
    when 0 <= i <= s.len()
{
    if i < s.len() && '0' <= s[i] && s[i] <= '9' {
        digits_at(s, i + 1)
    } else {
        i
    }
}

/// Skips a digit run.
pub fn scan_digits(chars: &Vec<char>, i: usize) -> (r: usize)
    requires
        i <= chars@.len(),
    ensures
        r == digits_at(chars@, i as int),
        i <= r <= chars@.len(),
{
    let n = chars.len();
    let mut j = i;
    while j < n && '0' <= chars[j] && chars[j] <= '9'
        invariant
            n == chars@.len(),
            i <= j <= n,
            digits_at(chars@, i as int) == digits_at(chars@, j as int),
        decreases n - j,
    {
        j += 1;
    }
    j
}

/// The position after the JSON number starting at `i`, when one is there.
pub open spec fn number_at(s: Seq<char>, i: int) -> Option<int> {
    let len = s.len() as int;
    if !(0 <= i < len) {
        None
    } else {
        let j0 = if s[i] == '-' {
            i + 1
        } else {
            i
        };
        if j0 >= len {
            None
        } else if s[j0] == '0' {
            number_tail_at(s, j0 + 1)
        } else if '1' <= s[j0] && s[j0] <= '9' {
            number_tail_at(s, pos_in(digits_at(s, j0 + 1), j0 + 1, len))
        } else {
            None
        }
    }
}

/// The position after the optional fraction and exponent starting at `i`.
pub open spec fn number_tail_at(s: Seq<char>, i: int) -> Option<int> {
    let len = s.len() as int;
    let j1 = if i < len && s[i] == '.' {
        let d = pos_in(digits_at(s, i + 1), i + 1, len);
        if d == i + 1 {
            -1
        } else {
            d
        }
    } else {
        i
    };
    if j1 < 0 {
        None
    } else if j1 < len && (s[j1] == 'e' || s[j1] == 'E') {
        let j2 = if j1 + 1 < len && (s[j1 + 1] == '+' || s[j1 + 1] == '-') {
            j1 + 2
        } else {
            j1 + 1
        };
        let d = pos_in(digits_at(s, j2), j2, len);
        if d == j2 {
            None
        } else {
            Some(d)
        }
    } else {
        Some(j1)
    }
}

/// Skips one JSON number.
pub fn scan_number(chars: &Vec<char>, i: usize) -> (r: Option<usize>)
    requires
        i <= chars@.len(),
    ensures
        match r {
            Some(j) => number_at(chars@, i as int) == Some(j as int) && i < j <= chars@.len(),
            None => number_at(chars@, i as int) is None,
        },
{
    let n = chars.len();
    if i >= n {
        return None;
    }
    let j0 = if chars[i] == '-' {
        i + 1
    } else {
        i
    };
    if j0 >= n {
        return None;
    }
    let j1 = if chars[j0] == '0' {
        j0 + 1
    } else if '1' <= chars[j0] && chars[j0] <= '9' {
        scan_digits(chars, j0 + 1)
    } else {
        return None;
    };
    // fraction
    let j2 = if j1 < n && chars[j1] == '.' {
        let d = scan_digits(chars, j1 + 1);
        if d == j1 + 1 {
            return None;
        }
        d
    } else {
        j1
    };
    // exponent
    if j2 < n && (chars[j2] == 'e' || chars[j2] == 'E') {
        let j3 = if j2 + 1 < n && (chars[j2 + 1] == '+' || chars[j2 + 1] == '-') {
            j2 + 2
        } else {
            j2 + 1
        };
        let d = scan_digits(chars, j3);
        if d == j3 {
            return None;
        }
        Some(d)
    } else {
        Some(j2)
    }
}

/// True when `true` stands at `i`.
pub open spec fn lit_true_at(s: Seq<char>, i: int) -> bool {
    i + 4 <= s.len() && s[i] == 't' && s[i + 1] == 'r' && s[i + 2] == 'u' && s[i + 3] == 'e'
}

/// True when `false` stands at `i`.
pub open spec fn lit_false_at(s: Seq<char>, i: int) -> bool {
    i + 5 <= s.len() && s[i] == 'f' && s[i + 1] == 'a' && s[i + 2] == 'l' && s[i + 3] == 's' && s[i
        + 4] == 'e'
}

/// True when `null` stands at `i`.
pub open spec fn lit_null_at(s: Seq<char>, i: int) -> bool {
    i + 4 <= s.len() && s[i] == 'n' && s[i + 1] == 'u' && s[i + 2] == 'l' && s[i + 3] == 'l'
}

/// Tests for `null` at `i`.
pub fn scan_lit_null(chars: &Vec<char>, i: usize) -> (r: bool)
    requires
        i <= chars@.len(),
    ensures
        r == lit_null_at(chars@, i as int),
{
    chars.len() >= 4 && i <= chars.len() - 4 && chars[i] == 'n' && chars[i + 1] == 'u' && chars[i
        + 2] == 'l' && chars[i + 3] == 'l'
}

/// The position after the JSON value starting at `i`, when one is there.
/// Values are validated but not retained.
pub open spec fn skip_value_at(s: Seq<char>, i: int) -> Option<int>
    decreases s.len() - i, 0int,
    when 0 <= i <= s.len()
{
    let len = s.len() as int;
    if i >= len {
        None
    } else {
        let c = s[i];
        if c == '"' {
            match string_at(s, i) {
                Some((_, j)) => Some(j),
                None => None,
            }
        } else if c == '{' {
            let j = pos_in(ws_at(s, i + 1), i + 1, len);
            if j < len && s[j] == '}' {
                Some(j + 1)
            } else {
                skip_members_at(s, j)
            }
        } else if c == '[' {
            let j = pos_in(ws_at(s, i + 1), i + 1, len);
            if j < len && s[j] == ']' {
                Some(j + 1)
            } else {
                skip_elems_at(s, j)
            }
        } else if lit_true_at(s, i) {
            Some(i + 4)
        } else if lit_false_at(s, i) {
            Some(i + 5)
        } else if lit_null_at(s, i) {
            Some(i + 4)
        } else {
            number_at(s, i)
        }
    }
}

/// The position after the member list and closing brace starting at the
/// first member's key at `i`.
pub open spec fn skip_members_at(s: Seq<char>, i: int) -> Option<int>
    decreases s.len() - i, 1int,
    when 0 <= i <= s.len()
{
    let len = s.len() as int;
    match string_at(s, i) {
        None => None,
        Some((_, jk0)) => {
            let jk = pos_in(jk0, i + 1, len);
            let jc = pos_in(ws_at(s, jk), jk, len);
            if jc < len && s[jc] == ':' {
                let jv = pos_in(ws_at(s, jc + 1), jc + 1, len);
                match skip_value_at(s, jv) {
                    None => None,
                    Some(je0) => {
                        let je = pos_in(je0, jv + 1, len);
                        let jn = pos_in(ws_at(s, je), je, len);
                        if jn < len && s[jn] == ',' {
                            skip_members_at(s, pos_in(ws_at(s, jn + 1), jn + 1, len))
                        } else if jn < len && s[jn] == '}' {
                            Some(jn + 1)
                        } else {
                            None
                        }
                    },
                }
            } else {
                None
            }
        },
    }
}

/// The position after the element list and closing bracket starting at the
/// first element at `i`.
pub open spec fn skip_elems_at(s: Seq<char>, i: int) -> Option<int>
    decreases s.len() - i, 1int,
    when 0 <= i <= s.len()
{
    let len = s.len() as int;
    match skip_value_at(s, i) {
        None => None,
        Some(je0) => {
            let je = pos_in(je0, i + 1, len);
            let jn = pos_in(ws_at(s, je), je, len);
            if jn < len && s[jn] == ',' {
                skip_elems_at(s, pos_in(ws_at(s, jn + 1), jn + 1, len))
            } else if jn < len && s[jn] == ']' {
                Some(jn + 1)
            } else {
                None
            }
        },
    }
}

/// Skips one JSON value.
pub fn skip_value(chars: &Vec<char>, i: usize) -> (r: Option<usize>)
    requires
        i <= chars@.len(),
    ensures
        match r {
            Some(j) => skip_value_at(chars@, i as int) == Some(j as int) && i < j <= chars@.len(),
            None => skip_value_at(chars@, i as int) is None,
        },
    decreases chars@.len() - i, 0int,
{
    let n = chars.len();
    if i >= n {
        return None;
    }
    let c = chars[i];
    if c == '"' {
        match scan_string(chars, i) {
            Some((_, j)) => Some(j),
            None => None,
        }
    } else if c == '{' {
        let j = scan_ws(chars, i + 1);
        if j < n && chars[j] == '}' {
            Some(j + 1)
        } else {
            skip_members(chars, j)
        }
    } else if c == '[' {
        let j = scan_ws(chars, i + 1);
        if j < n && chars[j] == ']' {
            Some(j + 1)
        } else {
            skip_elems(chars, j)
        }
    } else if chars.len() >= 4 && i <= chars.len() - 4 && chars[i] == 't' && chars[i + 1] == 'r'
        && chars[i + 2] == 'u' && chars[i + 3] == 'e' {
        Some(i + 4)
    } else if chars.len() >= 5 && i <= chars.len() - 5 && chars[i] == 'f' && chars[i + 1] == 'a'
        && chars[i + 2] == 'l' && chars[i + 3] == 's' && chars[i + 4] == 'e' {
        Some(i + 5)
    } else if scan_lit_null(chars, i) {
        Some(i + 4)
    } else {
        proof {
            assert(!lit_true_at(chars@, i as int));
            assert(!lit_false_at(chars@, i as int));
        }
        scan_number(chars, i)
    }
}

/// Skips the members of an object, from the first key to past the closing
/// brace.
pub fn skip_members(chars: &Vec<char>, i: usize) -> (r: Option<usize>)
    requires
        i <= chars@.len(),
    ensures
        match r {
            Some(j) => skip_members_at(chars@, i as int) == Some(j as int) && i < j
                <= chars@.len(),
            None => skip_members_at(chars@, i as int) is None,
        },
    decreases chars@.len() - i, 1int,
{
    let n = chars.len();
    match scan_string(chars, i) {
        None => None,
        Some((_, jk)) => {
            let jc = scan_ws(chars, jk);
            if jc < n && chars[jc] == ':' {
                let jv = scan_ws(chars, jc + 1);
                match skip_value(chars, jv) {
                    None => None,
                    Some(je) => {
                        let jn = scan_ws(chars, je);
                        if jn < n && chars[jn] == ',' {
                            let nx = scan_ws(chars, jn + 1);
                            skip_members(chars, nx)
                        } else if jn < n && chars[jn] == '}' {
                            Some(jn + 1)
                        } else {
                            None
                        }
                    },
                }
            } else {
                None
            }
        },
    }
}

/// Skips the elements of an array, from the first element to past the
/// closing bracket.
pub fn skip_elems(chars: &Vec<char>, i: usize) -> (r: Option<usize>)
    requires
        i <= chars@.len(),
    ensures
        match r {
            Some(j) => skip_elems_at(chars@, i as int) == Some(j as int) && i < j <= chars@.len(),
            None => skip_elems_at(chars@, i as int) is None,
        },
    decreases chars@.len() - i, 1int,
{
    let n = chars.len();
    match skip_value(chars, i) {
        None => None,
        Some(je) => {
            let jn = scan_ws(chars, je);
            if jn < n && chars[jn] == ',' {
                let nx = scan_ws(chars, jn + 1);
                skip_elems(chars, nx)
            } else if jn < n && chars[jn] == ']' {
                Some(jn + 1)
            } else {
                None
            }
        },
    }
}

} // verus!
