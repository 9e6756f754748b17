//! The guest override ABI: what the host writes to the guest's stdin and how
//! it reads the guest's stdout.
//!
//! The guest receives one JSON object (`WasmInput`) on stdin and answers with
//! one JSON object (`WasmOutput`) on stdout. Both directions are verified
//! here: the serializer's output equals `input_json`, and the parser's result
//! equals `wasm_output_json_at`. Unknown fields in the guest's answer are
//! validated and ignored; a later duplicate of a known field overwrites the
//! earlier one.

use vstd::prelude::*;

use crate::json::{
    lit_null_at, pos_in, scan_lit_null, scan_string, scan_ws, skip_value, skip_value_at,
    string_at, ws_at,
};
use crate::outside::{chars_to_string, utf8_to_string};
use crate::strutil::{chars_eq_str, str_to_chars};
use vstd::utf8::{decode_utf8, valid_utf8};

verus! {

/// The mathematical content of a guest answer.
pub struct WasmOutputModel {
    pub app_url: Option<Seq<char>>,
    pub headers_to_update: Seq<(Seq<char>, Seq<char>)>,
    pub headers_to_remove: Seq<Seq<char>>,
    pub response_headers_to_add: Seq<(Seq<char>, Seq<char>)>,
    pub response_headers_to_remove: Seq<Seq<char>>,
}

/// The guest's answer: an optional replacement upstream URL, request-header
/// updates and removals, and the reserved response-header fields, which are
/// parsed but not applied by the pipeline.
#[derive(Debug, Clone)]
pub struct WasmOutput {
    pub app_url: Option<String>,
    pub headers_to_update: Vec<(String, String)>,
    pub headers_to_remove: Vec<String>,
    pub response_headers_to_add: Vec<(String, String)>,
    pub response_headers_to_remove: Vec<String>,
}

/// The characters of a sequence of string pairs.
pub open spec fn pairs_view(v: Seq<(String, String)>) -> Seq<(Seq<char>, Seq<char>)> {
    v.map_values(|p: (String, String)| (p.0@, p.1@))
}

/// The characters of a sequence of strings.
pub open spec fn strings_view(v: Seq<String>) -> Seq<Seq<char>> {
    v.map_values(|s: String| s@)
}

impl View for WasmOutput {
    type V = WasmOutputModel;

    open spec fn view(&self) -> WasmOutputModel {
        WasmOutputModel {
            app_url: match self.app_url {
                Some(u) => Some(u@),
                None => None,
            },
            headers_to_update: pairs_view(self.headers_to_update@),
            headers_to_remove: strings_view(self.headers_to_remove@),
            response_headers_to_add: pairs_view(self.response_headers_to_add@),
            response_headers_to_remove: strings_view(self.response_headers_to_remove@),
        }
    }
}

/// The answer of a guest that chose to do nothing.
pub open spec fn empty_output_model() -> WasmOutputModel {
    WasmOutputModel {
        app_url: None,
        headers_to_update: Seq::empty(),
        headers_to_remove: Seq::empty(),
        response_headers_to_add: Seq::empty(),
        response_headers_to_remove: Seq::empty(),
    }
}

impl WasmOutput {
    /// The no-op answer: no URL override, nothing updated, nothing removed.
    pub fn empty() -> (r: WasmOutput)
        ensures
            r@ == empty_output_model(),
    {
        let r = WasmOutput {
            app_url: None,
            headers_to_update: Vec::new(),
            headers_to_remove: Vec::new(),
            response_headers_to_add: Vec::new(),
            response_headers_to_remove: Vec::new(),
        };
        proof {
            assert(r@.headers_to_update =~= empty_output_model().headers_to_update);
            assert(r@.headers_to_remove =~= empty_output_model().headers_to_remove);
            assert(r@.response_headers_to_add =~= empty_output_model().response_headers_to_add);
            assert(r@.response_headers_to_remove
                =~= empty_output_model().response_headers_to_remove);
        }
        r
    }
}

impl Default for WasmOutput {
    /// The default answer is the no-op answer.
    fn default() -> (r: WasmOutput)
        ensures
            r@ == empty_output_model(),
    {
        WasmOutput::empty()
    }
}

/// The string-to-string object starting at `i`: its pairs in order and the
/// position after the closing brace.
pub open spec fn strmap_at(s: Seq<char>, i: int) -> Option<(Seq<(Seq<char>, Seq<char>)>, int)> {
    let len = s.len() as int;
    if 0 <= i < len && s[i] == '{' {
        let j = pos_in(ws_at(s, i + 1), i + 1, len);
        if j < len && s[j] == '}' {
            Some((Seq::empty(), j + 1))
        } else {
            strmap_items_at(s, j, Seq::empty())
        }
    } else {
        None
    }
}

/// The members of a string-to-string object, from the first key at `i`.
pub open spec fn strmap_items_at(
    s: Seq<char>,
    i: int,
    acc: Seq<(Seq<char>, Seq<char>)>,
) -> Option<(Seq<(Seq<char>, Seq<char>)>, int)>
    decreases s.len() - i,
    when 0 <= i <= s.len()
{
    let len = s.len() as int;
    match string_at(s, i) {
        None => None,
        Some((k, jk0)) => {
            let jk = pos_in(jk0, i + 1, len);
            let jc = pos_in(ws_at(s, jk), jk, len);
            if jc < len && s[jc] == ':' {
                let jv = pos_in(ws_at(s, jc + 1), jc + 1, len);
                match string_at(s, jv) {
                    None => None,
                    Some((v, je0)) => {
                        let je = pos_in(je0, jv + 1, len);
                        let jn = pos_in(ws_at(s, je), je, len);
                        if jn < len && s[jn] == ',' {
                            strmap_items_at(
                                s,
                                pos_in(ws_at(s, jn + 1), jn + 1, len),
                                acc.push((k, v)),
                            )
                        } else if jn < len && s[jn] == '}' {
                            Some((acc.push((k, v)), jn + 1))
                        } else {
                            None
                        }
                    },
                }
            } else {
                None
            }
        },
    }
}

/// Reads a string-to-string object.
pub fn scan_strmap(chars: &Vec<char>, i: usize) -> (r: Option<(Vec<(String, String)>, usize)>)
    requires
        i <= chars@.len(),
    ensures
        match r {
            Some((ps, j)) => strmap_at(chars@, i as int) == Some((pairs_view(ps@), j as int)) && i
                < j <= chars@.len(),
            None => strmap_at(chars@, i as int) is None,
        },
{
    let n = chars.len();
    if !(i < n && chars[i] == '{') {
        return None;
    }
    let mut acc: Vec<(String, String)> = Vec::new();
    let mut j = scan_ws(chars, i + 1);
    if j < n && chars[j] == '}' {
        proof {
            assert(pairs_view(acc@) =~= Seq::<(Seq<char>, Seq<char>)>::empty());
        }
        return Some((acc, j + 1));
    }
    proof {
        assert(pairs_view(acc@) =~= Seq::<(Seq<char>, Seq<char>)>::empty());
    }
    loop
        invariant
            n == chars@.len(),
            j <= n,
            strmap_items_at(chars@, j as int, pairs_view(acc@)) == strmap_at(chars@, i as int),
            i < j,
        decreases n - j,
    {
        match scan_string(chars, j) {
            None => {
                return None;
            },
            Some((k, jk)) => {
                let jc = scan_ws(chars, jk);
                if jc < n && chars[jc] == ':' {
                    let jv = scan_ws(chars, jc + 1);
                    match scan_string(chars, jv) {
                        None => {
                            return None;
                        },
                        Some((v, je)) => {
                            let jn = scan_ws(chars, je);
                            let ghost prev = pairs_view(acc@);
                            let ghost kv = (k@, v@);
                            let ks = chars_to_string(k);
                            let vs = chars_to_string(v);
                            if jn < n && chars[jn] == ',' {
                                acc.push((ks, vs));
                                proof {
                                    assert(pairs_view(acc@) =~= prev.push(kv));
                                }
                                let nx = scan_ws(chars, jn + 1);
                                if nx <= j {
                                    // a comma always moves the position forward
                                    proof {
                                        assert(false);
                                    }
                                }
                                j = nx;
                            } else if jn < n && chars[jn] == '}' {
                                acc.push((ks, vs));
                                proof {
                                    assert(pairs_view(acc@) =~= prev.push(kv));
                                }
                                return Some((acc, jn + 1));
                            } else {
                                return None;
                            }
                        },
                    }
                } else {
                    return None;
                }
            },
        }
    }
}

/// The string array starting at `i`: its strings in order and the position
/// after the closing bracket.
pub open spec fn strarr_at(s: Seq<char>, i: int) -> Option<(Seq<Seq<char>>, int)> {
    let len = s.len() as int;
    if 0 <= i < len && s[i] == '[' {
        let j = pos_in(ws_at(s, i + 1), i + 1, len);
        if j < len && s[j] == ']' {
            Some((Seq::empty(), j + 1))
        } else {
            strarr_items_at(s, j, Seq::empty())
        }
    } else {
        None
    }
}

/// The elements of a string array, from the first element at `i`.
pub open spec fn strarr_items_at(s: Seq<char>, i: int, acc: Seq<Seq<char>>) -> Option<
    (Seq<Seq<char>>, int),
>
    decreases s.len() - i,
    when 0 <= i <= s.len()
{
    let len = s.len() as int;
    match string_at(s, i) {
        None => None,
        Some((v, je0)) => {
            let je = pos_in(je0, i + 1, len);
            let jn = pos_in(ws_at(s, je), je, len);
            if jn < len && s[jn] == ',' {
                strarr_items_at(s, pos_in(ws_at(s, jn + 1), jn + 1, len), acc.push(v))
            } else if jn < len && s[jn] == ']' {
                Some((acc.push(v), jn + 1))
            } else {
                None
            }
        },
    }
}

/// Reads a string array.
pub fn scan_strarr(chars: &Vec<char>, i: usize) -> (r: Option<(Vec<String>, usize)>)
    requires
        i <= chars@.len(),
    ensures
        match r {
            Some((vs, j)) => strarr_at(chars@, i as int) == Some((strings_view(vs@), j as int))
                && i < j <= chars@.len(),
            None => strarr_at(chars@, i as int) is None,
        },
{
    let n = chars.len();
    if !(i < n && chars[i] == '[') {
        return None;
    }
    let mut acc: Vec<String> = Vec::new();
    let mut j = scan_ws(chars, i + 1);
    if j < n && chars[j] == ']' {
        proof {
            assert(strings_view(acc@) =~= Seq::<Seq<char>>::empty());
        }
        return Some((acc, j + 1));
    }
    proof {
        assert(strings_view(acc@) =~= Seq::<Seq<char>>::empty());
    }
    loop
        invariant
            n == chars@.len(),
            j <= n,
            strarr_items_at(chars@, j as int, strings_view(acc@)) == strarr_at(chars@, i as int),
            i < j,
        decreases n - j,
    {
        match scan_string(chars, j) {
            None => {
                return None;
            },
            Some((v, je)) => {
                let jn = scan_ws(chars, je);
                let ghost prev = strings_view(acc@);
                let ghost vv = v@;
                let vs = chars_to_string(v);
                if jn < n && chars[jn] == ',' {
                    acc.push(vs);
                    proof {
                        assert(strings_view(acc@) =~= prev.push(vv));
                    }
                    let nx = scan_ws(chars, jn + 1);
                    if nx <= j {
                        // a comma always moves the position forward
                        proof {
                            assert(false);
                        }
                    }
                    j = nx;
                } else if jn < n && chars[jn] == ']' {
                    acc.push(vs);
                    proof {
                        assert(strings_view(acc@) =~= prev.push(vv));
                    }
                    return Some((acc, jn + 1));
                } else {
                    return None;
                }
            },
        }
    }
}

/// One member's effect on the accumulated answer: known fields are decoded
/// into their slot, unknown fields are validated and skipped.
pub open spec fn field_value_at(s: Seq<char>, jv: int, k: Seq<char>, acc: WasmOutputModel) -> Option<
    (WasmOutputModel, int),
> {
    if k == "app_url"@ {
        if lit_null_at(s, jv) {
            Some((WasmOutputModel { app_url: None, ..acc }, jv + 4))
        } else {
            match string_at(s, jv) {
                Some((u, j)) => Some((WasmOutputModel { app_url: Some(u), ..acc }, j)),
                None => None,
            }
        }
    } else if k == "headers_to_update"@ {
        match strmap_at(s, jv) {
            Some((m, j)) => Some((WasmOutputModel { headers_to_update: m, ..acc }, j)),
            None => None,
        }
    } else if k == "headers_to_remove"@ {
        match strarr_at(s, jv) {
            Some((a, j)) => Some((WasmOutputModel { headers_to_remove: a, ..acc }, j)),
            None => None,
        }
    } else if k == "response_headers_to_add"@ {
        match strmap_at(s, jv) {
            Some((m, j)) => Some((WasmOutputModel { response_headers_to_add: m, ..acc }, j)),
            None => None,
        }
    } else if k == "response_headers_to_remove"@ {
        match strarr_at(s, jv) {
            Some((a, j)) => Some((WasmOutputModel { response_headers_to_remove: a, ..acc }, j)),
            None => None,
        }
    } else {
        match skip_value_at(s, jv) {
            Some(j) => Some((acc, j)),
            None => None,
        }
    }
}

/// Decodes one member's value into the accumulated answer.
fn apply_field(chars: &Vec<char>, jv: usize, key: &Vec<char>, acc: WasmOutput) -> (r: Option<
    (WasmOutput, usize),
>)
    requires
        jv <= chars@.len(),
    ensures
        match r {
            Some((o, j)) => field_value_at(chars@, jv as int, key@, acc@) == Some((o@, j as int))
                && jv < j <= chars@.len(),
            None => field_value_at(chars@, jv as int, key@, acc@) is None,
        },
{
    let n = chars.len();
    let mut out = acc;
    if chars_eq_str(key, "app_url") {
        if scan_lit_null(chars, jv) {
            proof {
                assert(jv + 4 <= n);
            }
            out.app_url = None;
            Some((out, jv + 4))
        } else {
            match scan_string(chars, jv) {
                Some((u, j)) => {
                    out.app_url = Some(chars_to_string(u));
                    Some((out, j))
                },
                None => None,
            }
        }
    } else if chars_eq_str(key, "headers_to_update") {
        match scan_strmap(chars, jv) {
            Some((m, j)) => {
                out.headers_to_update = m;
                Some((out, j))
            },
            None => None,
        }
    } else if chars_eq_str(key, "headers_to_remove") {
        match scan_strarr(chars, jv) {
            Some((a, j)) => {
                out.headers_to_remove = a;
                Some((out, j))
            },
            None => None,
        }
    } else if chars_eq_str(key, "response_headers_to_add") {
        match scan_strmap(chars, jv) {
            Some((m, j)) => {
                out.response_headers_to_add = m;
                Some((out, j))
            },
            None => None,
        }
    } else if chars_eq_str(key, "response_headers_to_remove") {
        match scan_strarr(chars, jv) {
            Some((a, j)) => {
                out.response_headers_to_remove = a;
                Some((out, j))
            },
            None => None,
        }
    } else {
        match skip_value(chars, jv) {
            Some(j) => Some((out, j)),
            None => None,
        }
    }
}

/// The members of the guest's answer object, from the first key at `i`,
/// folded over the accumulated answer.
pub open spec fn out_fields_at(s: Seq<char>, i: int, acc: WasmOutputModel) -> Option<
    (WasmOutputModel, int),
>
    decreases s.len() - i,
    when 0 <= i <= s.len()
{
    let len = s.len() as int;
    match string_at(s, i) {
        None => None,
        Some((k, jk0)) => {
            let jk = pos_in(jk0, i + 1, len);
            let jc = pos_in(ws_at(s, jk), jk, len);
            if jc < len && s[jc] == ':' {
                let jv = pos_in(ws_at(s, jc + 1), jc + 1, len);
                match field_value_at(s, jv, k, acc) {
                    None => None,
                    Some((acc2, je0)) => {
                        let je = pos_in(je0, jv + 1, len);
                        let jn = pos_in(ws_at(s, je), je, len);
                        if jn < len && s[jn] == ',' {
                            out_fields_at(s, pos_in(ws_at(s, jn + 1), jn + 1, len), acc2)
                        } else if jn < len && s[jn] == '}' {
                            Some((acc2, jn + 1))
                        } else {
                            None
                        }
                    },
                }
            } else {
                None
            }
        },
    }
}

/// Decodes the member list of the guest's answer object.
fn parse_fields(chars: &Vec<char>, i: usize, start: WasmOutput) -> (r: Option<(WasmOutput, usize)>)
    requires
        i <= chars@.len(),
    ensures
        match r {
            Some((o, j)) => out_fields_at(chars@, i as int, start@) == Some((o@, j as int)) && j
                <= chars@.len(),
            None => out_fields_at(chars@, i as int, start@) is None,
        },
{
    let n = chars.len();
    let mut acc = start;
    let mut j = i;
    let ghost start_model = acc@;
    loop
        invariant
            n == chars@.len(),
            j <= n,
            out_fields_at(chars@, j as int, acc@) == out_fields_at(chars@, i as int, start_model),
            start_model == start@,
        decreases n - j,
    {
        match scan_string(chars, j) {
            None => {
                return None;
            },
            Some((k, jk)) => {
                let jc = scan_ws(chars, jk);
                if jc < n && chars[jc] == ':' {
                    let jv = scan_ws(chars, jc + 1);
                    match apply_field(chars, jv, &k, acc) {
                        None => {
                            return None;
                        },
                        Some((acc2, je)) => {
                            let jn = scan_ws(chars, je);
                            if jn < n && chars[jn] == ',' {
                                let nx = scan_ws(chars, jn + 1);
                                if nx <= j {
                                    // a comma always moves the position forward
                                    proof {
                                        assert(false);
                                    }
                                }
                                acc = acc2;
                                j = nx;
                            } else if jn < n && chars[jn] == '}' {
                                return Some((acc2, jn + 1));
                            } else {
                                return None;
                            }
                        },
                    }
                } else {
                    return None;
                }
            },
        }
    }
}

/// The guest's answer denoted by a whole JSON text, when it is one object
/// with nothing but whitespace around it.
pub open spec fn wasm_output_json_at(s: Seq<char>) -> Option<WasmOutputModel> {
    let len = s.len() as int;
    let i0 = pos_in(ws_at(s, 0), 0, len);
    if i0 < len && s[i0] == '{' {
        let j = pos_in(ws_at(s, i0 + 1), i0 + 1, len);
        if j < len && s[j] == '}' {
            if pos_in(ws_at(s, j + 1), j + 1, len) == len {
                Some(empty_output_model())
            } else {
                None
            }
        } else {
            match out_fields_at(s, j, empty_output_model()) {
                Some((m, je)) => {
                    if pos_in(ws_at(s, je), je, len) == len {
                        Some(m)
                    } else {
                        None
                    }
                },
                None => None,
            }
        }
    } else {
        None
    }
}

/// Parses a guest answer from a JSON text.
pub fn parse_wasm_output(s: &str) -> (r: Option<WasmOutput>)
    ensures
        match r {
            Some(o) => wasm_output_json_at(s@) == Some(o@),
            None => wasm_output_json_at(s@) is None,
        },
{
    let chars = str_to_chars(s);
    let n = chars.len();
    let i0 = scan_ws(&chars, 0);
    if !(i0 < n && chars[i0] == '{') {
        return None;
    }
    let j = scan_ws(&chars, i0 + 1);
    if j < n && chars[j] == '}' {
        let k = scan_ws(&chars, j + 1);
        if k == n {
            Some(WasmOutput::empty())
        } else {
            None
        }
    } else {
        match parse_fields(&chars, j, WasmOutput::empty()) {
            Some((o, je)) => {
                let k = scan_ws(&chars, je);
                if k == n {
                    Some(o)
                } else {
                    None
                }
            },
            None => None,
        }
    }
}

/// The hexadecimal digit character for a value below sixteen.
pub open spec fn hex_digit_char(v: u32) -> char {
    if v < 10 {
        (('0' as u32) + v) as char
    } else {
        (('a' as u32) + (v - 10)) as char
    }
}

/// Writes one hexadecimal digit.
pub fn hex_digit(v: u32) -> (r: char)
    requires
        v < 16,
    ensures
        r == hex_digit_char(v),
{
    if v < 10 {
        (('0' as u8) + (v as u8)) as char
    } else {
        (('a' as u8) + ((v - 10) as u8)) as char
    }
}

/// How one character is written inside a JSON string: quotes and backslashes
/// are escaped, control characters become `\u00XX`, everything else stands
/// as itself.
pub open spec fn esc_char(c: char) -> Seq<char> {
    if c == '"' {
        seq!['\\', '"']
    } else if c == '\\' {
        seq!['\\', '\\']
    } else if (c as u32) < 0x20 {
        seq!['\\', 'u', '0', '0', hex_digit_char((c as u32) / 16), hex_digit_char((c as u32) % 16)]
    } else {
        seq![c]
    }
}

/// The JSON string-body encoding of a character sequence.
pub open spec fn json_escaped(s: Seq<char>) -> Seq<char>
    decreases s.len(),
{
    if s.len() == 0 {
        Seq::empty()
    } else {
        esc_char(s[0]) + json_escaped(s.skip(1))
    }
}

/// Escaping distributes over appending one character.
pub proof fn lemma_json_escaped_push(s: Seq<char>, c: char)
    ensures
        json_escaped(s.push(c)) == json_escaped(s) + esc_char(c),
    decreases s.len(),
{
    if s.len() == 0 {
        assert(s.push(c)[0] == c);
        assert(s.push(c).skip(1) =~= Seq::<char>::empty());
        assert(json_escaped(Seq::<char>::empty()) == Seq::<char>::empty());
        assert(json_escaped(s.push(c)) == esc_char(c) + json_escaped(s.push(c).skip(1)));
        assert(json_escaped(s.push(c)) =~= json_escaped(s) + esc_char(c));
    } else {
        assert(s.push(c)[0] == s[0]);
        assert(s.push(c).skip(1) =~= s.skip(1).push(c));
        lemma_json_escaped_push(s.skip(1), c);
        assert(json_escaped(s.push(c)) =~= json_escaped(s) + esc_char(c));
    }
}

/// Appends the escaped form of `s`.
fn escape_into(out: &mut Vec<char>, s: &str)
    ensures
        final(out)@ == old(out)@ + json_escaped(s@),
{
    let n = s.unicode_len();
    let mut i: usize = 0;
    proof {
        assert(s@.take(0) =~= Seq::<char>::empty());
        assert(out@ =~= out@ + json_escaped(s@.take(0)));
    }
    while i < n
        invariant
            n == s@.len(),
            0 <= i <= n,
            out@ == old(out)@ + json_escaped(s@.take(i as int)),
        decreases n - i,
    {
        let c = s.get_char(i);
        let ghost before = out@;
        if c == '"' {
            out.push('\\');
            out.push('"');
        } else if c == '\\' {
            out.push('\\');
            out.push('\\');
        } else if (c as u32) < 0x20 {
            let v = c as u32;
            out.push('\\');
            out.push('u');
            out.push('0');
            out.push('0');
            out.push(hex_digit(v / 16));
            out.push(hex_digit(v % 16));
        } else {
            out.push(c);
        }
        proof {
            assert(out@ =~= before + esc_char(s@[i as int]));
            lemma_json_escaped_push(s@.take(i as int), s@[i as int]);
            assert(s@.take(i + 1) =~= s@.take(i as int).push(s@[i as int]));
            assert(out@ =~= old(out)@ + json_escaped(s@.take(i + 1)));
        }
        i += 1;
    }
    proof {
        assert(s@.take(n as int) =~= s@);
    }
}

/// Appends the characters of a literal.
fn append_str_into(out: &mut Vec<char>, lit: &str)
    ensures
        final(out)@ == old(out)@ + lit@,
{
    let n = lit.unicode_len();
    let mut i: usize = 0;
    proof {
        assert(out@ =~= out@ + lit@.take(0));
    }
    while i < n
        invariant
            n == lit@.len(),
            0 <= i <= n,
            out@ == old(out)@ + lit@.take(i as int),
        decreases n - i,
    {
        out.push(lit.get_char(i));
        proof {
            assert(lit@.take(i + 1) =~= lit@.take(i as int).push(lit@[i as int]));
            assert(out@ =~= old(out)@ + lit@.take(i + 1));
        }
        i += 1;
    }
    proof {
        assert(lit@.take(n as int) =~= lit@);
    }
}

/// One `"key":"value"` member.
pub open spec fn member_json(k: Seq<char>, v: Seq<char>) -> Seq<char> {
    seq!['"'] + json_escaped(k) + seq!['"', ':', '"'] + json_escaped(v) + seq!['"']
}

/// The members of the `headers` object, joined with commas.
pub open spec fn headers_json(hs: Seq<(Seq<char>, Seq<char>)>) -> Seq<char>
    decreases hs.len(),
{
    if hs.len() == 0 {
        Seq::empty()
    } else if hs.len() == 1 {
        member_json(hs[0].0, hs[0].1)
    } else {
        headers_json(hs.drop_last()) + seq![','] + member_json(hs.last().0, hs.last().1)
    }
}

/// Appends the `headers` members.
fn headers_into(out: &mut Vec<char>, hs: &Vec<(String, String)>)
    ensures
        final(out)@ == old(out)@ + headers_json(pairs_view(hs@)),
{
    let n = hs.len();
    let mut i: usize = 0;
    proof {
        assert(pairs_view(hs@).take(0) =~= Seq::<(Seq<char>, Seq<char>)>::empty());
        assert(out@ =~= out@ + headers_json(pairs_view(hs@).take(0)));
    }
    while i < n
        invariant
            n == hs@.len(),
            0 <= i <= n,
            out@ == old(out)@ + headers_json(pairs_view(hs@).take(i as int)),
        decreases n - i,
    {
        let ghost hv = pairs_view(hs@);
        let ghost before = out@;
        if i > 0 {
            out.push(',');
        }
        out.push('"');
        escape_into(out, hs[i].0.as_str());
        out.push('"');
        out.push(':');
        out.push('"');
        escape_into(out, hs[i].1.as_str());
        out.push('"');
        proof {
            assert(hv[i as int] == (hs@[i as int].0@, hs@[i as int].1@));
            if i > 0 {
                assert(out@ =~= before + seq![','] + member_json(hv[i as int].0, hv[i as int].1));
            } else {
                assert(out@ =~= before + member_json(hv[i as int].0, hv[i as int].1));
            }
            assert(hv.take(i + 1).drop_last() =~= hv.take(i as int));
            assert(hv.take(i + 1).last() == hv[i as int]);
            assert(out@ =~= old(out)@ + headers_json(hv.take(i + 1)));
        }
        i += 1;
    }
    proof {
        assert(pairs_view(hs@).take(n as int) =~= pairs_view(hs@));
    }
}

/// What the host marshals into the guest on each invocation: the request
/// method, path, a flattened header map, and the body decoded as text.
#[derive(Debug, Clone)]
pub struct WasmInput {
    pub method: String,
    pub path: String,
    pub headers: Vec<(String, String)>,
    pub body: String,
}

/// The JSON text written to the guest's stdin for one request.
pub open spec fn input_json(
    m: Seq<char>,
    p: Seq<char>,
    hs: Seq<(Seq<char>, Seq<char>)>,
    b: Seq<char>,
) -> Seq<char> {
    "{\"method\":\""@ + json_escaped(m) + "\",\"path\":\""@ + json_escaped(p)
        + "\",\"headers\":{"@ + headers_json(hs) + "},\"body\":\""@ + json_escaped(b) + "\"}"@
}

impl WasmInput {
    /// Serialises this input as the JSON object the guest reads from stdin.
    pub fn to_json(&self) -> (r: String)
        ensures
            r@ == input_json(self.method@, self.path@, pairs_view(self.headers@), self.body@),
    {
        let mut out: Vec<char> = Vec::new();
        append_str_into(&mut out, "{\"method\":\"");
        escape_into(&mut out, self.method.as_str());
        append_str_into(&mut out, "\",\"path\":\"");
        escape_into(&mut out, self.path.as_str());
        append_str_into(&mut out, "\",\"headers\":{");
        headers_into(&mut out, &self.headers);
        append_str_into(&mut out, "},\"body\":\"");
        escape_into(&mut out, self.body.as_str());
        append_str_into(&mut out, "\"}");
        proof {
            assert(out@ =~= input_json(
                self.method@,
                self.path@,
                pairs_view(self.headers@),
                self.body@,
            ));
        }
        chars_to_string(out)
    }
}

/// Why a guest invocation failed. `Load`, `Export` and `Trap` arise in the
/// host that runs the component and carry its message; `Encoding` and
/// `Deserialize` arise here, from the bytes the guest wrote to stdout.
#[derive(Debug, Clone, PartialEq, Eq)]
pub enum WasmEngineError {
    Load(String),
    Export(String),
    Trap(String),
    Encoding,
    Deserialize,
}

/// Interprets the bytes a guest left on its stdout pipe: not UTF-8 is an
/// encoding error; blank text is the no-op answer; anything else must be a
/// well-formed answer object.
pub fn interpret_guest_stdout(bytes: Vec<u8>) -> (r: Result<WasmOutput, WasmEngineError>)
    ensures
        match r {
            Ok(o) => valid_utf8(bytes@) && ({
                let s = decode_utf8(bytes@);
                if ws_at(s, 0) == s.len() {
                    o@ == empty_output_model()
                } else {
                    wasm_output_json_at(s) == Some(o@)
                }
            }),
            Err(e) => match e {
                WasmEngineError::Encoding => !valid_utf8(bytes@),
                WasmEngineError::Deserialize => valid_utf8(bytes@) && ws_at(
                    decode_utf8(bytes@),
                    0,
                ) != decode_utf8(bytes@).len() && wasm_output_json_at(
                    decode_utf8(bytes@),
                ) is None,
                _ => false,
            },
        },
{
    let text = match utf8_to_string(&bytes) {
        Some(t) => t,
        None => {
            return Err(WasmEngineError::Encoding);
        },
    };
    let chars = str_to_chars(text.as_str());
    let blank_to = scan_ws(&chars, 0);
    if blank_to == chars.len() {
        return Ok(WasmOutput::empty());
    }
    match parse_wasm_output(text.as_str()) {
        Some(o) => Ok(o),
        None => Err(WasmEngineError::Deserialize),
    }
}

} // verus!
