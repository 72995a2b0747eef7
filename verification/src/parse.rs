//! Reading the snapshot wire format back: a recursive-descent parser for
//! the JSON payload that [`crate::Snapshot::to_json`] produces.
//!
//! The parser accepts exactly the canonical form the serializer emits (no
//! insignificant whitespace).  Numbers that fit the integer models come
//! back as integers; any other value (a float, an array, an object) comes
//! back as its raw JSON text, so a parsed snapshot serializes to the same
//! payload again.

use vstd::prelude::*;
use crate::recording::{InputKind, LineState, StepState, StepStateInfo};
use crate::render::chars_to_string;
use crate::table::LineTable;
use crate::value::InputValue;
use vstd::string::StrSliceExecFns;

verus! {

/// The value of a canonical (uppercase) hexadecimal digit character.
fn hex_val(c: char) -> (r: Option<u8>)
    ensures
        r matches Some(d) ==> d < 16 && c == crate::value::hex_of(d as nat),
{
    match c {
        '0' => Some(0),
        '1' => Some(1),
        '2' => Some(2),
        '3' => Some(3),
        '4' => Some(4),
        '5' => Some(5),
        '6' => Some(6),
        '7' => Some(7),
        '8' => Some(8),
        '9' => Some(9),
        'A' => Some(10),
        'B' => Some(11),
        'C' => Some(12),
        'D' => Some(13),
        'E' => Some(14),
        'F' => Some(15),
        _ => None,
    }
}

/// The value of a decimal digit character.
fn digit_val(c: char) -> (r: Option<u8>)
    ensures
        r matches Some(d) ==> d < 10 && c == crate::value::digit_of(d as nat),
{
    match c {
        '0' => Some(0),
        '1' => Some(1),
        '2' => Some(2),
        '3' => Some(3),
        '4' => Some(4),
        '5' => Some(5),
        '6' => Some(6),
        '7' => Some(7),
        '8' => Some(8),
        '9' => Some(9),
        _ => None,
    }
}

/// Matches the literal `pat` at position `i`.
fn lit_match(v: &Vec<char>, i: usize, pat: &str) -> (r: Option<usize>)
    requires
        i <= v@.len(),
    ensures
        r matches Some(j) ==> {
            &&& i <= j <= v@.len()
            &&& j == i + pat@.len()
            &&& v@.subrange(i as int, j as int) == pat@
        },
        (i + pat@.len() <= v@.len() && v@.subrange(i as int, i + pat@.len()) == pat@) ==> r
            is Some,
{
    let n = pat.unicode_len();
    let len = v.len();
    if n > len - i {
        return None;
    }
    let mut k: usize = 0;
    while k < n
        invariant
            k <= n,
            i + n <= len,
            len == v@.len(),
            n == pat@.len(),
            forall|m: int| 0 <= m < k ==> v@[i + m] == pat@[m],
        decreases n - k,
    {
        if v[i + k] != pat.get_char(k) {
            return None;
        }
        k = k + 1;
    }
    proof {
        assert(v@.subrange(i as int, (i + n) as int) =~= pat@);
    }
    Some(i + n)
}

/// Parses a JSON string at position `i` (the opening quote included),
/// decoding the escapes the serializer emits.
fn parse_string(v: &Vec<char>, i: usize) -> (r: Option<(String, usize)>)
    requires
        i <= v@.len(),
    ensures
        r matches Some(p) ==> {
            &&& i < p.1 <= v@.len()
            &&& v@.subrange(i as int, p.1 as int) == seq!['"'] + crate::value::esc_str(p.0@)
                + seq!['"']
        },
{
    if i >= v.len() || v[i] != '"' {
        return None;
    }
    let mut pos: usize = i + 1;
    let mut out: Vec<char> = Vec::new();
    loop
        invariant
            i < pos <= v@.len(),
            v@[i as int] == '"',
            v@.subrange(i + 1, pos as int) == crate::value::esc_str(out@),
        decreases v@.len() - pos,
    {
        if pos >= v.len() {
            return None;
        }
        let c = v[pos];
        if c == '"' {
            proof {
                assert(v@.subrange(i as int, pos + 1) =~= seq!['"'] + crate::value::esc_str(out@)
                    + seq!['"']);
            }
            return Some((chars_to_string(out), pos + 1));
        }
        let ghost pre = out@;
        let ghost from = pos as int;
        if c == '\\' {
            if v.len() - pos < 2 {
                return None;
            }
            let e = v[pos + 1];
            if e == '"' || e == '\\' {
                out.push(e);
                pos = pos + 2;
            } else if e == 'n' {
                out.push('\n');
                pos = pos + 2;
            } else if e == 'r' {
                out.push('\r');
                pos = pos + 2;
            } else if e == 't' {
                out.push('\t');
                pos = pos + 2;
            } else if e == 'u' {
                if v.len() - pos < 6 {
                    return None;
                }
                if v[pos + 2] != '0' || v[pos + 3] != '0' {
                    return None;
                }
                let h1 = match hex_val(v[pos + 4]) {
                    Some(d) => d,
                    None => {
                        return None;
                    },
                };
                let h2 = match hex_val(v[pos + 5]) {
                    Some(d) => d,
                    None => {
                        return None;
                    },
                };
                let code: u8 = h1 * 16 + h2;
                // only control characters without a shorthand escape are
                // canonical in this form
                if code >= 32 || code == 9 || code == 10 || code == 13 {
                    return None;
                }
                let d = code as char;
                proof {
                    assert((d as u32) == code as u32);
                    assert(d != '"' && d != '\\' && d != '\n' && d != '\r' && d != '\t');
                    assert((d as u32) / 16 == h1 as u32 && (d as u32) % 16 == h2 as u32)
                        by (nonlinear_arith)
                        requires
                            d as u32 == h1 as u32 * 16 + h2 as u32,
                            h1 < 16,
                            h2 < 16,
                    ;
                    assert(crate::value::esc_char(d) =~= v@.subrange(from, from + 6));
                }
                out.push(d);
                pos = pos + 6;
            } else {
                return None;
            }
        } else {
            // a raw control character is never emitted; reject it so that
            // accepted text re-escapes to exactly what was read
            if (c as u32) < 32 {
                return None;
            }
            out.push(c);
            pos = pos + 1;
        }
        proof {
            assert(out@ == pre.push(out@.last()));
            assert(out@.drop_last() =~= pre);
            assert(crate::value::esc_str(out@) == crate::value::esc_str(pre)
                + crate::value::esc_char(out@.last()));
            assert(v@.subrange(i + 1, pos as int) =~= v@.subrange(i + 1, from) + v@.subrange(
                from,
                pos as int,
            ));
            assert(v@.subrange(from, pos as int) =~= crate::value::esc_char(out@.last()));
            assert(v@.subrange(i + 1, pos as int) == crate::value::esc_str(out@));
        }
    }
}

/// Collects the characters of `v[a..b]` into a string.
fn collect_text(v: &Vec<char>, a: usize, b: usize) -> (r: String)
    requires
        a <= b <= v@.len(),
    ensures
        r@ == v@.subrange(a as int, b as int),
{
    let mut out: Vec<char> = Vec::new();
    let mut k: usize = a;
    while k < b
        invariant
            a <= k <= b <= v@.len(),
            out@ == v@.subrange(a as int, k as int),
        decreases b - k,
    {
        out.push(v[k]);
        assert(out@ =~= v@.subrange(a as int, k + 1));
        k = k + 1;
    }
    chars_to_string(out)
}

/// Finds the end of the balanced array or object that starts at `i`.
fn scan_extent(v: &Vec<char>, i: usize) -> (r: Option<usize>)
    requires
        i <= v@.len(),
    ensures
        r matches Some(j) ==> i < j <= v@.len(),
{
    if i >= v.len() {
        return None;
    }
    if v[i] != '[' && v[i] != '{' {
        return None;
    }
    let mut pos: usize = i;
    let mut depth: usize = 0;
    let mut in_str = false;
    loop
        invariant
            i <= pos <= v@.len(),
        decreases v@.len() - pos,
    {
        if pos >= v.len() {
            return None;
        }
        let c = v[pos];
        if in_str {
            if c == '\\' {
                if v.len() - pos < 2 {
                    return None;
                }
                pos = pos + 2;
            } else {
                if c == '"' {
                    in_str = false;
                }
                pos = pos + 1;
            }
        } else if c == '"' {
            in_str = true;
            pos = pos + 1;
        } else if c == '[' || c == '{' {
            if depth == usize::MAX {
                return None;
            }
            depth = depth + 1;
            pos = pos + 1;
        } else if c == ']' || c == '}' {
            if depth == 0 {
                return None;
            }
            depth = depth - 1;
            pos = pos + 1;
            if depth == 0 {
                return Some(pos);
            }
        } else {
            pos = pos + 1;
        }
    }
}

/// Parses a JSON number at position `i`: a canonical integer that fits the
/// integer models comes back typed, anything else as raw text.
fn parse_number(v: &Vec<char>, i: usize) -> (r: Option<(InputValue, usize)>)
    requires
        i <= v@.len(),
    ensures
        r matches Some(p) ==> {
            &&& i < p.1 <= v@.len()
            &&& v@.subrange(i as int, p.1 as int) == crate::value::json_of(p.0@)
        },
{
    let mut pos: usize = i;
    let mut neg = false;
    if pos < v.len() && v[pos] == '-' {
        neg = true;
        pos = pos + 1;
    }
    let digits_start = pos;
    loop
        invariant
            i <= digits_start <= pos <= v@.len(),
        decreases v@.len() - pos,
    {
        if pos >= v.len() {
            break ;
        }
        let c = v[pos];
        if c < '0' || c > '9' {
            break ;
        }
        pos = pos + 1;
    }
    if pos == digits_start {
        return None;
    }
    let mut fractional = false;
    if pos < v.len() && (v[pos] == '.' || v[pos] == 'e' || v[pos] == 'E') {
        fractional = true;
        loop
            invariant
                i <= digits_start < pos <= v@.len(),
            decreases v@.len() - pos,
        {
            if pos >= v.len() {
                break ;
            }
            let c = v[pos];
            let numberish = (c >= '0' && c <= '9') || c == '.' || c == 'e' || c == 'E' || c == '+'
                || c == '-';
            if !numberish {
                break ;
            }
            pos = pos + 1;
        }
    }
    // anything other than a canonical integer is kept as its raw text,
    // which re-serializes verbatim
    if fractional || (pos - digits_start > 1 && v[digits_start] == '0') {
        return Some((InputValue::Raw(collect_text(v, i, pos)), pos));
    }
    let mut acc: u64 = 0;
    let mut k: usize = digits_start;
    let ghost ds = digits_start as int;
    while k < pos
        invariant
            i <= digits_start < pos <= v@.len(),
            digits_start <= k <= pos,
            ds == digits_start as int,
            k == digits_start ==> acc == 0,
            pos - digits_start > 1 ==> v@[ds] != '0',
            k > digits_start ==> crate::value::dec_chars(acc as nat) == v@.subrange(ds, k as int),
            k > digits_start && k < pos ==> acc >= 1,
        decreases pos - k,
    {
        let c = v[k];
        let d: u64 = match digit_val(c) {
            Some(d) => d as u64,
            None => {
                return Some((InputValue::Raw(collect_text(v, i, pos)), pos));
            },
        };
        if acc > (u64::MAX - d) / 10 {
            return Some((InputValue::Raw(collect_text(v, i, pos)), pos));
        }
        let prev = acc;
        acc = acc * 10 + d;
        proof {
            if k == digits_start {
                assert(crate::value::dec_chars(acc as nat) =~= seq![
                    crate::value::digit_of(d as nat),
                ]);
                assert(v@.subrange(ds, k + 1) =~= seq![c]);
                if pos - digits_start > 1 {
                    assert(crate::value::digit_of(0) == '0');
                    assert(d >= 1);
                }
            } else {
                assert(prev >= 1);
                assert(acc as int / 10 == prev as int && acc as int % 10 == d as int)
                    by (nonlinear_arith)
                    requires
                        acc as int == prev as int * 10 + d as int,
                        0 <= d < 10,
                        prev >= 1,
                ;
                assert(crate::value::dec_chars(acc as nat) == crate::value::dec_chars(
                    prev as nat,
                ) + seq![crate::value::digit_of(d as nat)]);
                assert(v@.subrange(ds, k + 1) =~= v@.subrange(ds, k as int) + seq![c]);
            }
        }
        k = k + 1;
    }
    if neg {
        if acc == 0 {
            return Some((InputValue::Raw(collect_text(v, i, pos)), pos));
        }
        let value = if acc == 9223372036854775808u64 {
            i64::MIN
        } else if acc <= 9223372036854775807u64 {
            -(acc as i64)
        } else {
            return Some((InputValue::Raw(collect_text(v, i, pos)), pos));
        };
        proof {
            assert(v@.subrange(i as int, pos as int) =~= seq!['-'] + v@.subrange(ds, pos as int));
        }
        Some((InputValue::Int(value), pos))
    } else {
        Some((InputValue::Uint(acc), pos))
    }
}

/// Parses any JSON value at position `i`.
fn parse_value(v: &Vec<char>, i: usize) -> (r: Option<(InputValue, usize)>)
    requires
        i <= v@.len(),
    ensures
        r matches Some(p) ==> {
            &&& i < p.1 <= v@.len()
            &&& v@.subrange(i as int, p.1 as int) == crate::value::json_of(p.0@)
        },
{
    if i >= v.len() {
        return None;
    }
    let c = v[i];
    if c == '"' {
        match parse_string(v, i) {
            Some((s, j)) => Some((InputValue::Text(s), j)),
            None => None,
        }
    } else if c == 'n' {
        match lit_match(v, i, "null") {
            Some(j) => {
                proof {
                    reveal_strlit("null");
                    assert("null"@ =~= seq!['n', 'u', 'l', 'l']);
                }
                Some((InputValue::Null, j))
            },
            None => None,
        }
    } else if c == 't' {
        match lit_match(v, i, "true") {
            Some(j) => {
                proof {
                    reveal_strlit("true");
                    assert("true"@ =~= seq!['t', 'r', 'u', 'e']);
                }
                Some((InputValue::Bool(true), j))
            },
            None => None,
        }
    } else if c == 'f' {
        match lit_match(v, i, "false") {
            Some(j) => {
                proof {
                    reveal_strlit("false");
                    assert("false"@ =~= seq!['f', 'a', 'l', 's', 'e']);
                }
                Some((InputValue::Bool(false), j))
            },
            None => None,
        }
    } else if c == '[' || c == '{' {
        match scan_extent(v, i) {
            Some(j) => Some((InputValue::Raw(collect_text(v, i, j)), j)),
            None => None,
        }
    } else if c == '-' || (c >= '0' && c <= '9') {
        parse_number(v, i)
    } else {
        None
    }
}

impl InputValue {
    /// Parses one JSON value from its exact canonical text: on success the
    /// result's wire form is `s` itself.  A `Raw` value obtained here can
    /// therefore never make a serialized snapshot malformed.
    pub fn from_json_text(s: &str) -> (r: Option<InputValue>)
        ensures
            r matches Some(x) ==> crate::value::json_of(x@) == s@,
    {
        let mut v: Vec<char> = Vec::new();
        crate::value::push_chars(s, &mut v);
        match parse_value(&v, 0) {
            Some((val, j)) => if j == v.len() {
                proof {
                    assert(v@.subrange(0, v@.len() as int) =~= v@);
                }
                Some(val)
            } else {
                None
            },
            None => None,
        }
    }
}

/// Parses one record object at position `i`.
#[verifier::rlimit(80)]
fn parse_info(v: &Vec<char>, i: usize) -> (r: Option<(StepStateInfo, usize)>)
    requires
        i <= v@.len(),
    ensures
        r matches Some(p) ==> {
            &&& i < p.1 <= v@.len()
            &&& v@.subrange(i as int, p.1 as int) == crate::wire::json_of_info(p.0@)
        },
{
    let j0 = match lit_match(v, i, "{\"name\":") {
        Some(j) => j,
        None => {
            return None;
        },
    };
    let (name, j1) = match parse_string(v, j0) {
        Some(p) => p,
        None => {
            return None;
        },
    };
    let j2 = match lit_match(v, j1, ",\"input\":") {
        Some(j) => j,
        None => {
            return None;
        },
    };
    let (input, j3) = match parse_value(v, j2) {
        Some(p) => p,
        None => {
            return None;
        },
    };
    let j4 = match lit_match(v, j3, ",\"input_kind\":") {
        Some(j) => j,
        None => {
            return None;
        },
    };
    let (kind, j5) = match lit_match(v, j4, "\"flow\"") {
        Some(j) => (InputKind::Flow, j),
        None => match lit_match(v, j4, "\"external\"") {
            Some(j) => (InputKind::External, j),
            None => {
                return None;
            },
        },
    };
    let j6 = match lit_match(v, j5, ",\"passed\":") {
        Some(j) => j,
        None => {
            return None;
        },
    };
    let (passed, j7) = match lit_match(v, j6, "true") {
        Some(j) => (true, j),
        None => match lit_match(v, j6, "false") {
            Some(j) => (false, j),
            None => {
                return None;
            },
        },
    };
    let j8 = match lit_match(v, j7, "}") {
        Some(j) => j,
        None => {
            return None;
        },
    };
    let ghost gname = name@;
    let ghost ginput = input@;
    let info = StepStateInfo::new(name.as_str(), input, kind, passed);
    proof {
        reveal_strlit("{\"name\":");
        reveal_strlit(",\"input\":");
        reveal_strlit(",\"input_kind\":");
        reveal_strlit("\"flow\"");
        reveal_strlit("\"external\"");
        reveal_strlit(",\"passed\":");
        reveal_strlit("true");
        reveal_strlit("false");
        reveal_strlit("}");
        assert("{\"name\":"@ =~= seq!['{', '"', 'n', 'a', 'm', 'e', '"', ':']);
        assert(",\"input\":"@ =~= seq![',', '"', 'i', 'n', 'p', 'u', 't', '"', ':']);
        assert(",\"input_kind\":"@ =~= seq![
            ',', '"', 'i', 'n', 'p', 'u', 't', '_', 'k', 'i', 'n', 'd', '"', ':',
        ]);
        assert("\"flow\""@ =~= seq!['"', 'f', 'l', 'o', 'w', '"']);
        assert("\"external\""@ =~= seq!['"', 'e', 'x', 't', 'e', 'r', 'n', 'a', 'l', '"']);
        assert(",\"passed\":"@ =~= seq![',', '"', 'p', 'a', 's', 's', 'e', 'd', '"', ':']);
        assert("true"@ =~= seq!['t', 'r', 'u', 'e']);
        assert("false"@ =~= seq!['f', 'a', 'l', 's', 'e']);
        assert("}"@ =~= seq!['}']);
        assert(v@.subrange(j4 as int, j5 as int) == crate::wire::json_of_kind(kind));
        assert(v@.subrange(j6 as int, j7 as int) == crate::value::json_of(
            crate::value::VInput::Bool(passed),
        ));
        assert(v@.subrange(i as int, j8 as int) =~= v@.subrange(i as int, j0 as int)
            + v@.subrange(j0 as int, j1 as int) + v@.subrange(j1 as int, j2 as int)
            + v@.subrange(j2 as int, j3 as int) + v@.subrange(j3 as int, j4 as int)
            + v@.subrange(j4 as int, j5 as int) + v@.subrange(j5 as int, j6 as int)
            + v@.subrange(j6 as int, j7 as int) + v@.subrange(j7 as int, j8 as int));
        assert(crate::wire::json_of_info(info@) =~= seq!['{', '"', 'n', 'a', 'm', 'e', '"', ':',
            '"'] + crate::value::esc_str(gname) + seq!['"', ',', '"', 'i', 'n', 'p', 'u', 't',
            '"', ':'] + crate::value::json_of(ginput) + seq![',', '"', 'i', 'n', 'p', 'u', 't',
            '_', 'k', 'i', 'n', 'd', '"', ':'] + crate::wire::json_of_kind(kind) + seq![',', '"',
            'p', 'a', 's', 's', 'e', 'd', '"', ':'] + crate::value::json_of(
            crate::value::VInput::Bool(passed),
        ) + seq!['}']);
        assert(v@.subrange(i as int, j8 as int) =~= crate::wire::json_of_info(info@));
    }
    Some((info, j8))
}

/// Appending a record extends the comma-separated record list by one
/// serialized record.
proof fn lemma_infos_push(ss: Seq<crate::recording::VStepInfo>, x: crate::recording::VStepInfo, i: int)
    requires
        0 <= i <= ss.len(),
    ensures
        crate::wire::json_of_infos(ss.push(x), i) == crate::wire::json_of_infos(ss, i) + (
        if ss.len() > 0 {
            seq![',']
        } else {
            Seq::<char>::empty()
        }) + crate::wire::json_of_info(x),
    decreases ss.len() - i,
{
    let t = ss.push(x);
    if i == ss.len() {
        assert(crate::wire::json_of_infos(t, i + 1) =~= Seq::<char>::empty());
        assert(crate::wire::json_of_infos(ss, i) =~= Seq::<char>::empty());
        assert(t[i] == x);
        assert(crate::wire::json_of_infos(t, i) =~= crate::wire::json_of_infos(ss, i) + (
        if ss.len() > 0 {
            seq![',']
        } else {
            Seq::<char>::empty()
        }) + crate::wire::json_of_info(x));
    } else {
        assert(t[i] == ss[i]);
        lemma_infos_push(ss, x, i + 1);
        assert(crate::wire::json_of_infos(t, i) =~= crate::wire::json_of_infos(ss, i) + (
        if ss.len() > 0 {
            seq![',']
        } else {
            Seq::<char>::empty()
        }) + crate::wire::json_of_info(x));
    }
}

/// Appending a step extends the comma-separated step list by one
/// serialized step.
proof fn lemma_steps_push(ss: Seq<crate::recording::VStep>, x: crate::recording::VStep, i: int)
    requires
        0 <= i <= ss.len(),
    ensures
        crate::wire::json_of_steps(ss.push(x), i) == crate::wire::json_of_steps(ss, i) + (
        if ss.len() > 0 {
            seq![',']
        } else {
            Seq::<char>::empty()
        }) + crate::wire::json_of_step(x),
    decreases ss.len() - i,
{
    let t = ss.push(x);
    if i == ss.len() {
        assert(crate::wire::json_of_steps(t, i + 1) =~= Seq::<char>::empty());
        assert(crate::wire::json_of_steps(ss, i) =~= Seq::<char>::empty());
        assert(t[i] == x);
        assert(crate::wire::json_of_steps(t, i) =~= crate::wire::json_of_steps(ss, i) + (
        if ss.len() > 0 {
            seq![',']
        } else {
            Seq::<char>::empty()
        }) + crate::wire::json_of_step(x));
    } else {
        assert(t[i] == ss[i]);
        lemma_steps_push(ss, x, i + 1);
        assert(crate::wire::json_of_steps(t, i) =~= crate::wire::json_of_steps(ss, i) + (
        if ss.len() > 0 {
            seq![',']
        } else {
            Seq::<char>::empty()
        }) + crate::wire::json_of_step(x));
    }
}

/// Appending a line extends the comma-separated entry list by one
/// serialized entry.
proof fn lemma_entries_push(ls: Seq<crate::recording::VLine>, x: crate::recording::VLine, i: int)
    requires
        0 <= i <= ls.len(),
    ensures
        crate::wire::json_of_entries(ls.push(x), i) == crate::wire::json_of_entries(ls, i) + (
        if ls.len() > 0 {
            seq![',']
        } else {
            Seq::<char>::empty()
        }) + seq!['"'] + crate::value::esc_str(x.name) + seq!['"', ':']
            + crate::wire::json_of_line(x),
    decreases ls.len() - i,
{
    let t = ls.push(x);
    if i == ls.len() {
        assert(crate::wire::json_of_entries(t, i + 1) =~= Seq::<char>::empty());
        assert(crate::wire::json_of_entries(ls, i) =~= Seq::<char>::empty());
        assert(t[i] == x);
        assert(crate::wire::json_of_entries(t, i) =~= crate::wire::json_of_entries(ls, i) + (
        if ls.len() > 0 {
            seq![',']
        } else {
            Seq::<char>::empty()
        }) + seq!['"'] + crate::value::esc_str(x.name) + seq!['"', ':']
            + crate::wire::json_of_line(x));
    } else {
        assert(t[i] == ls[i]);
        lemma_entries_push(ls, x, i + 1);
        assert(crate::wire::json_of_entries(t, i) =~= crate::wire::json_of_entries(ls, i) + (
        if ls.len() > 0 {
            seq![',']
        } else {
            Seq::<char>::empty()
        }) + seq!['"'] + crate::value::esc_str(x.name) + seq!['"', ':']
            + crate::wire::json_of_line(x));
    }
}

/// Parses one step at position `i`: an object for a single record, an
/// array for a multi-branch step.
fn parse_step(v: &Vec<char>, i: usize) -> (r: Option<(StepState, usize)>)
    requires
        i <= v@.len(),
    ensures
        r matches Some(p) ==> {
            &&& i < p.1 <= v@.len()
            &&& v@.subrange(i as int, p.1 as int) == crate::wire::json_of_step(p.0@)
        },
{
    if i >= v.len() {
        return None;
    }
    if v[i] != '[' {
        return match parse_info(v, i) {
            Some((info, j)) => Some((StepState::single(info), j)),
            None => None,
        };
    }
    let mut pos: usize = i + 1;
    let mut infos: Vec<StepStateInfo> = Vec::new();
    if pos < v.len() && v[pos] == ']' {
        let ghost iv = crate::recording::infos_view(infos@);
        let st = StepState::multi(infos);
        proof {
            assert(iv =~= Seq::<crate::recording::VStepInfo>::empty());
            assert(crate::wire::json_of_infos(iv, 0) =~= Seq::<char>::empty());
            assert(v@.subrange(i as int, pos + 1) =~= seq!['['] + crate::wire::json_of_infos(
                iv,
                0,
            ) + seq![']']);
        }
        return Some((st, pos + 1));
    }
    loop
        invariant
            i < pos <= v@.len(),
            v@[i as int] == '[',
            v@.subrange(i + 1, pos as int) == crate::wire::json_of_infos(
                crate::recording::infos_view(infos@),
                0,
            ) + (if infos@.len() > 0 {
                seq![',']
            } else {
                Seq::<char>::empty()
            }),
        decreases v@.len() - pos,
    {
        let (info, j) = match parse_info(v, pos) {
            Some(p) => p,
            None => {
                return None;
            },
        };
        let ghost pre = infos@;
        let ghost from = pos as int;
        proof {
            assert(crate::recording::infos_view(pre).len() == pre.len());
        }
        infos.push(info);
        proof {
            assert(crate::recording::infos_view(infos@) =~= crate::recording::infos_view(
                pre,
            ).push(info@));
            lemma_infos_push(crate::recording::infos_view(pre), info@, 0);
            assert(v@.subrange(i + 1, j as int) =~= v@.subrange(i + 1, from) + v@.subrange(
                from,
                j as int,
            ));
            assert(v@.subrange(i + 1, j as int) =~= crate::wire::json_of_infos(
                crate::recording::infos_view(infos@),
                0,
            ));
        }
        pos = j;
        if pos >= v.len() {
            return None;
        }
        if v[pos] == ',' {
            pos = pos + 1;
            proof {
                assert(v@.subrange(i + 1, pos as int) =~= v@.subrange(i + 1, pos - 1) + seq![',']);
            }
        } else if v[pos] == ']' {
            let ghost iv = crate::recording::infos_view(infos@);
            let st = StepState::multi(infos);
            proof {
                assert(v@.subrange(i as int, pos + 1) =~= seq!['['] + crate::wire::json_of_infos(
                    iv,
                    0,
                ) + seq![']']);
            }
            return Some((st, pos + 1));
        } else {
            return None;
        }
    }
}

/// Parses one line object at position `i`.
#[verifier::rlimit(80)]
fn parse_line(v: &Vec<char>, i: usize) -> (r: Option<(LineState, usize)>)
    requires
        i <= v@.len(),
    ensures
        r matches Some(p) ==> {
            &&& i < p.1 <= v@.len()
            &&& v@.subrange(i as int, p.1 as int) == crate::wire::json_of_line(p.0@)
        },
{
    let j0 = match lit_match(v, i, "{\"name\":") {
        Some(j) => j,
        None => {
            return None;
        },
    };
    let (name, j1) = match parse_string(v, j0) {
        Some(p) => p,
        None => {
            return None;
        },
    };
    let j2 = match lit_match(v, j1, ",\"steps\":[") {
        Some(j) => j,
        None => {
            return None;
        },
    };
    let ghost gname = name@;
    let mut line = LineState::new(name.as_str());
    let mut pos: usize = j2;
    if pos < v.len() && v[pos] == ']' {
        let j3 = match lit_match(v, pos + 1, "}") {
            Some(j) => j,
            None => {
                return None;
            },
        };
        proof {
            assert(crate::wire::json_of_steps(line@.steps, 0) =~= Seq::<char>::empty());
            assert(v@.subrange(j2 as int, pos as int) =~= Seq::<char>::empty());
            assemble_line(v@, i as int, j0 as int, j1 as int, j2 as int, pos as int, j3 as int,
                line@);
        }
        return Some((line, j3));
    }
    loop
        invariant
            i <= j0 <= j1 <= j2 <= pos <= v@.len(),
            line@.name == gname,
            v@.subrange(i as int, j0 as int) == "{\"name\":"@,
            v@.subrange(j0 as int, j1 as int) == seq!['"'] + crate::value::esc_str(gname) + seq![
                '"',
            ],
            v@.subrange(j1 as int, j2 as int) == ",\"steps\":["@,
            v@.subrange(j2 as int, pos as int) == crate::wire::json_of_steps(line@.steps, 0) + (
            if line@.steps.len() > 0 {
                seq![',']
            } else {
                Seq::<char>::empty()
            }),
        decreases v@.len() - pos,
    {
        let (step, j) = match parse_step(v, pos) {
            Some(p) => p,
            None => {
                return None;
            },
        };
        let ghost pre = line@.steps;
        let ghost from = pos as int;
        let ghost sv = step@;
        line.push_step(step);
        proof {
            lemma_steps_push(pre, sv, 0);
            assert(v@.subrange(j2 as int, j as int) =~= v@.subrange(j2 as int, from)
                + v@.subrange(from, j as int));
            assert(v@.subrange(j2 as int, j as int) =~= crate::wire::json_of_steps(
                line@.steps,
                0,
            ));
        }
        pos = j;
        if pos >= v.len() {
            return None;
        }
        if v[pos] == ',' {
            pos = pos + 1;
            proof {
                assert(v@.subrange(j2 as int, pos as int) =~= v@.subrange(j2 as int, pos - 1)
                    + seq![',']);
            }
        } else if v[pos] == ']' {
            let j3 = match lit_match(v, pos + 1, "}") {
                Some(j) => j,
                None => {
                    return None;
                },
            };
            proof {
                assemble_line(v@, i as int, j0 as int, j1 as int, j2 as int, pos as int, j3 as int,
                    line@);
            }
            return Some((line, j3));
        } else {
            return None;
        }
    }
}

/// Glues the consumed pieces of a parsed line object back together: with
/// the literal pieces, the escaped name and the serialized steps in place,
/// the whole consumed range is the line's serialization.
proof fn assemble_line(
    t: Seq<char>,
    i: int,
    j0: int,
    j1: int,
    j2: int,
    pos: int,
    j3: int,
    l: crate::recording::VLine,
)
    requires
        0 <= i <= j0 <= j1 <= j2 <= pos < j3 <= t.len(),
        t.subrange(i, j0) == "{\"name\":"@,
        t.subrange(j0, j1) == seq!['"'] + crate::value::esc_str(l.name) + seq!['"'],
        t.subrange(j1, j2) == ",\"steps\":["@,
        t.subrange(j2, pos) == crate::wire::json_of_steps(l.steps, 0),
        t[pos] == ']',
        t.subrange(pos + 1, j3) == "}"@,
    ensures
        t.subrange(i, j3) == crate::wire::json_of_line(l),
{
    reveal_strlit("{\"name\":");
    reveal_strlit(",\"steps\":[");
    reveal_strlit("}");
    assert("{\"name\":"@ =~= seq!['{', '"', 'n', 'a', 'm', 'e', '"', ':']);
    assert(",\"steps\":["@ =~= seq![',', '"', 's', 't', 'e', 'p', 's', '"', ':', '[']);
    assert("}"@ =~= seq!['}']);
    assert(t.subrange(i, j3) =~= t.subrange(i, j0) + t.subrange(j0, j1) + t.subrange(j1, j2)
        + t.subrange(j2, pos) + seq![t[pos]] + t.subrange(pos + 1, j3));
    assert(t.subrange(i, j3) =~= crate::wire::json_of_line(l));
}

/// Parses a whole snapshot payload into a line table.  On success the
/// payload is exactly the canonical serialization of the result: parsing
/// and re-serializing gives the input back byte for byte.  The empty
/// canonical payload is always accepted.
#[verifier::rlimit(80)]
pub(crate) fn parse_snapshot(s: &str) -> (r: Option<LineTable>)
    ensures
        r matches Some(t) ==> {
            &&& t.wf()
            &&& s@ == crate::wire::json_of_snapshot(t@)
        },
        s@ == crate::wire::json_of_snapshot(Seq::<crate::recording::VLine>::empty()) ==> r
            is Some,
{
    let ghost nothing = Seq::<crate::recording::VLine>::empty();
    proof {
        reveal_strlit("{\"lines\":{");
        reveal_strlit("}}");
        assert("{\"lines\":{"@ =~= seq!['{', '"', 'l', 'i', 'n', 'e', 's', '"', ':', '{']);
        assert("}}"@ =~= seq!['}', '}']);
        assert(crate::wire::json_of_entries(nothing, 0) =~= Seq::<char>::empty());
        assert(crate::wire::json_of_snapshot(nothing) =~= seq![
            '{', '"', 'l', 'i', 'n', 'e', 's', '"', ':', '{', '}', '}',
        ]);
    }
    let mut v: Vec<char> = Vec::new();
    crate::value::push_chars(s, &mut v);
    let j0 = match lit_match(&v, 0, "{\"lines\":{") {
        Some(j) => j,
        None => {
            proof {
                if s@ == crate::wire::json_of_snapshot(nothing) {
                    assert(v@.subrange(0, 10) =~= "{\"lines\":{"@);
                    assert(false);
                }
            }
            return None;
        },
    };
    if j0 < v.len() && v[j0] == '}' {
        let j1 = match lit_match(&v, j0, "}}") {
            Some(j) => j,
            None => {
                proof {
                    if s@ == crate::wire::json_of_snapshot(nothing) {
                        assert(v@.subrange(j0 as int, j0 + 2) =~= "}}"@);
                        assert(false);
                    }
                }
                return None;
            },
        };
        if j1 != v.len() {
            proof {
                if s@ == crate::wire::json_of_snapshot(nothing) {
                    assert(v@.len() == 12);
                    assert(false);
                }
            }
            return None;
        }
        let t = LineTable::new();
        proof {
            assert(t@ =~= Seq::<crate::recording::VLine>::empty());
            assert(crate::wire::json_of_entries(t@, 0) =~= Seq::<char>::empty());
            assert(v@.subrange(j0 as int, j0 as int) =~= Seq::<char>::empty());
            assemble_snapshot(v@, j0 as int, j0 as int, j1 as int, t@);
        }
        return Some(t);
    }
    proof {
        if s@ == crate::wire::json_of_snapshot(nothing) {
            assert(false);
        }
    }
    let mut acc: Vec<LineState> = Vec::new();
    let mut pos: usize = j0;
    loop
        invariant
            j0 <= pos <= v@.len(),
            v@ == s@,
            s@ != crate::wire::json_of_snapshot(Seq::<crate::recording::VLine>::empty()),
            v@.subrange(0, j0 as int) == "{\"lines\":{"@,
            crate::table::lines_sorted(crate::table::lines_view(acc@)),
            v@.subrange(j0 as int, pos as int) == crate::wire::json_of_entries(
                crate::table::lines_view(acc@),
                0,
            ) + (if acc@.len() > 0 {
                seq![',']
            } else {
                Seq::<char>::empty()
            }),
        decreases v@.len() - pos,
    {
        let (key, j1) = match parse_string(&v, pos) {
            Some(p) => p,
            None => {
                return None;
            },
        };
        let j2 = match lit_match(&v, j1, ":") {
            Some(j) => j,
            None => {
                return None;
            },
        };
        let (line, j3) = match parse_line(&v, j2) {
            Some(p) => p,
            None => {
                return None;
            },
        };
        if !crate::order::str_eq(key.as_str(), line.name()) {
            return None;
        }
        if acc.len() > 0 {
            let ok = crate::order::str_lt(acc[acc.len() - 1].name(), line.name());
            if !ok {
                return None;
            }
        }
        let ghost pre = acc@;
        let ghost lv = line@;
        let ghost from = pos as int;
        proof {
            assert(crate::table::lines_view(pre).len() == pre.len());
        }
        acc.push(line);
        proof {
            let pv = crate::table::lines_view(pre);
            assert(crate::table::lines_view(acc@) =~= pv.push(lv));
            // the new entry keeps the table sorted: its name is above every
            // earlier name
            if pre.len() > 0 {
                assert(pv[pre.len() - 1] == pre[pre.len() - 1]@);
                assert forall|a: int| 0 <= a < pv.len() implies crate::order::lex_lt(
                    (#[trigger] pv[a]).name,
                    lv.name,
                ) by {
                    if a < pv.len() - 1 {
                        assert(crate::order::lex_lt(pv[a].name, pv[pre.len() - 1].name));
                        crate::order::lemma_lex_transitive(
                            pv[a].name,
                            pv[pre.len() - 1].name,
                            lv.name,
                        );
                    }
                }
            }
            assert(crate::table::lines_sorted(crate::table::lines_view(acc@)));
            reveal_strlit(":");
            assert(":"@ =~= seq![':']);
            lemma_entries_push(pv, lv, 0);
            assert(v@.subrange(j0 as int, j3 as int) =~= v@.subrange(j0 as int, from)
                + v@.subrange(from, j1 as int) + v@.subrange(j1 as int, j2 as int) + v@.subrange(
                j2 as int,
                j3 as int,
            ));
            assert(v@.subrange(j0 as int, j3 as int) =~= crate::wire::json_of_entries(
                crate::table::lines_view(acc@),
                0,
            ));
        }
        pos = j3;
        if pos >= v.len() {
            return None;
        }
        if v[pos] == ',' {
            pos = pos + 1;
            proof {
                assert(v@.subrange(j0 as int, pos as int) =~= v@.subrange(j0 as int, pos - 1)
                    + seq![',']);
            }
        } else if v[pos] == '}' {
            let j4 = match lit_match(&v, pos + 1, "}") {
                Some(j) => j,
                None => {
                    return None;
                },
            };
            if j4 != v.len() {
                return None;
            }
            let ghost gacc = crate::table::lines_view(acc@);
            let t = LineTable::from_sorted(acc);
            proof {
                reveal_strlit("}");
                assert("}"@ =~= seq!['}']);
                assert(v@.subrange(pos as int, pos + 1) =~= seq![v@[pos as int]]);
                assert(v@.subrange(pos as int, j4 as int) =~= v@.subrange(pos as int, pos + 1)
                    + v@.subrange(pos + 1, j4 as int));
                assert(v@.subrange(pos as int, j4 as int) =~= seq!['}', '}']);
                assemble_snapshot(v@, j0 as int, pos as int, j4 as int, t@);
            }
            return Some(t);
        } else {
            return None;
        }
    }
}

/// Glues a parsed snapshot payload back together: the header, the entries
/// and the two closing braces make up the whole input.
proof fn assemble_snapshot(t: Seq<char>, j0: int, pos: int, end: int, ls: Seq<crate::recording::VLine>)
    requires
        0 <= j0 <= pos <= end <= t.len(),
        end == t.len(),
        t.subrange(0, j0) == "{\"lines\":{"@,
        t.subrange(j0, pos) == crate::wire::json_of_entries(ls, 0),
        t.subrange(pos, end) =~= seq!['}', '}'],
    ensures
        t == crate::wire::json_of_snapshot(ls),
{
    reveal_strlit("{\"lines\":{");
    assert("{\"lines\":{"@ =~= seq!['{', '"', 'l', 'i', 'n', 'e', 's', '"', ':', '{']);
    assert(t =~= t.subrange(0, j0) + t.subrange(j0, pos) + t.subrange(pos, end));
    assert(t =~= crate::wire::json_of_snapshot(ls));
}

} // verus!
