//! The recorded-input value model.
//!
//! A step's recorded input is a JSON value.  The library keeps each such
//! value in [`InputValue`]: either one of the plain shapes the library can
//! reason about directly (`null`, booleans, integers, strings) or, for
//! anything else (floating-point numbers, arrays, objects), the value's
//! pre-serialized JSON text supplied by the caller.

use vstd::prelude::*;
use vstd::string::StrSliceExecFns;

verus! {

/// A recorded JSON value.
#[derive(PartialEq, Eq, Debug)]
pub enum InputValue {
    /// JSON `null`.
    Null,
    /// A JSON boolean.
    Bool(bool),
    /// A non-negative JSON integer.
    Uint(u64),
    /// A negative (or any signed) JSON integer.
    Int(i64),
    /// A JSON string (unescaped text).
    Text(String),
    /// Pre-serialized JSON text for any other value shape.  The text is
    /// spliced verbatim into the snapshot's wire form, so it must itself be
    /// one well-formed JSON value; `InputValue::from_json_text` builds a
    /// value with that guarantee proved.
    Raw(String),
}

/// The mathematical model of an [`InputValue`].
pub enum VInput {
    /// JSON `null`.
    Null,
    /// A JSON boolean.
    Bool(bool),
    /// A non-negative JSON integer.
    Uint(u64),
    /// A signed JSON integer.
    Int(i64),
    /// A JSON string as its character sequence.
    Text(Seq<char>),
    /// Raw JSON text as its character sequence.
    Raw(Seq<char>),
}

impl View for InputValue {
    type V = VInput;

    open spec fn view(&self) -> VInput {
        match self {
            InputValue::Null => VInput::Null,
            InputValue::Bool(b) => VInput::Bool(*b),
            InputValue::Uint(n) => VInput::Uint(*n),
            InputValue::Int(i) => VInput::Int(*i),
            InputValue::Text(s) => VInput::Text(s@),
            InputValue::Raw(s) => VInput::Raw(s@),
        }
    }
}

impl Clone for InputValue {
    /// Clones preserve the value's model.
    fn clone(&self) -> (r: Self)
        ensures
            r@ == self@,
    {
        match self {
            InputValue::Null => InputValue::Null,
            InputValue::Bool(b) => InputValue::Bool(*b),
            InputValue::Uint(n) => InputValue::Uint(*n),
            InputValue::Int(i) => InputValue::Int(*i),
            InputValue::Text(s) => InputValue::Text(s.clone()),
            InputValue::Raw(s) => InputValue::Raw(s.clone()),
        }
    }
}

impl InputValue {
    /// Whether the value is JSON `null`.
    pub fn is_null(&self) -> (r: bool)
        ensures
            r == (self@ is Null),
    {
        matches!(self, InputValue::Null)
    }
}

/// The decimal digit character for `d`.
pub open spec fn digit_of(d: nat) -> char
    recommends
        d < 10,
{
    (48 + d) as char
}

/// The decimal character sequence of a natural number, most significant
/// digit first, with no leading zeros (`0` itself is `"0"`).
pub open spec fn dec_chars(n: nat) -> Seq<char>
    decreases n,
{
    if n < 10 {
        seq![digit_of(n)]
    } else {
        dec_chars(n / 10) + seq![digit_of(n % 10)]
    }
}

/// The uppercase hexadecimal digit character for `d`.
pub open spec fn hex_of(d: nat) -> char
    recommends
        d < 16,
{
    if d < 10 {
        (48 + d) as char
    } else {
        (65 + (d - 10)) as char
    }
}

/// The JSON string-escape expansion of one character.
pub open spec fn esc_char(c: char) -> Seq<char> {
    if c == '"' {
        seq!['\\', '"']
    } else if c == '\\' {
        seq!['\\', '\\']
    } else if c == '\n' {
        seq!['\\', 'n']
    } else if c == '\r' {
        seq!['\\', 'r']
    } else if c == '\t' {
        seq!['\\', 't']
    } else if (c as u32) < 32 {
        seq!['\\', 'u', '0', '0', hex_of((c as u32) as nat / 16), hex_of((c as u32) as nat % 16)]
    } else {
        seq![c]
    }
}

/// The JSON string-escape expansion of a character sequence.
pub open spec fn esc_str(s: Seq<char>) -> Seq<char>
    decreases s.len(),
{
    if s.len() == 0 {
        Seq::empty()
    } else {
        esc_str(s.drop_last()) + esc_char(s.last())
    }
}

/// The JSON text of a value model.
pub open spec fn json_of(v: VInput) -> Seq<char> {
    match v {
        VInput::Null => seq!['n', 'u', 'l', 'l'],
        VInput::Bool(b) => if b {
            seq!['t', 'r', 'u', 'e']
        } else {
            seq!['f', 'a', 'l', 's', 'e']
        },
        VInput::Uint(n) => dec_chars(n as nat),
        VInput::Int(i) => if i >= 0 {
            dec_chars(i as nat)
        } else {
            seq!['-'] + dec_chars((-(i as int)) as nat)
        },
        VInput::Text(s) => seq!['"'] + esc_str(s) + seq!['"'],
        VInput::Raw(r) => r,
    }
}

/// The decimal digit character for `d`, executable form.
pub fn digit_char(d: u8) -> (c: char)
    requires
        d < 10,
    ensures
        c == digit_of(d as nat),
{
    match d {
        0 => '0',
        1 => '1',
        2 => '2',
        3 => '3',
        4 => '4',
        5 => '5',
        6 => '6',
        7 => '7',
        8 => '8',
        _ => '9',
    }
}

/// The uppercase hexadecimal digit character for `d`, executable form.
pub fn hex_char(d: u8) -> (c: char)
    requires
        d < 16,
    ensures
        c == hex_of(d as nat),
{
    match d {
        0 => '0',
        1 => '1',
        2 => '2',
        3 => '3',
        4 => '4',
        5 => '5',
        6 => '6',
        7 => '7',
        8 => '8',
        9 => '9',
        10 => 'A',
        11 => 'B',
        12 => 'C',
        13 => 'D',
        14 => 'E',
        _ => 'F',
    }
}

/// Appends the decimal rendering of `n` to `out`.
pub fn push_dec(n: u64, out: &mut Vec<char>)
    ensures
        final(out)@ == old(out)@ + dec_chars(n as nat),
    decreases n,
{
    if n < 10 {
        out.push(digit_char(n as u8));
    } else {
        push_dec(n / 10, out);
        out.push(digit_char((n % 10) as u8));
        assert(out@ =~= old(out)@ + dec_chars(n as nat));
    }
}

/// Appends the JSON string-escape expansion of `s` to `out`.
pub fn push_esc(s: &str, out: &mut Vec<char>)
    ensures
        final(out)@ == old(out)@ + esc_str(s@),
{
    let n = s.unicode_len();
    let mut i: usize = 0;
    assert(s@.take(0) =~= Seq::<char>::empty());
    while i < n
        invariant
            i <= n,
            n == s@.len(),
            out@ == old(out)@ + esc_str(s@.take(i as int)),
        decreases n - i,
    {
        let c = s.get_char(i);
        let code = c as u32;
        if c == '"' {
            out.push('\\');
            out.push('"');
        } else if c == '\\' {
            out.push('\\');
            out.push('\\');
        } else if c == '\n' {
            out.push('\\');
            out.push('n');
        } else if c == '\r' {
            out.push('\\');
            out.push('r');
        } else if c == '\t' {
            out.push('\\');
            out.push('t');
        } else if code < 32 {
            out.push('\\');
            out.push('u');
            out.push('0');
            out.push('0');
            out.push(hex_char((code / 16) as u8));
            out.push(hex_char((code % 16) as u8));
        } else {
            out.push(c);
        }
        proof {
            assert(s@.take(i + 1).drop_last() =~= s@.take(i as int));
            assert(s@.take(i + 1).last() == s@[i as int]);
            assert(out@ =~= old(out)@ + esc_str(s@.take(i + 1)));
        }
        i = i + 1;
    }
    assert(s@.take(n as int) =~= s@);
}

/// Appends the JSON text of `v` to `out`.
pub fn push_json_of(v: &InputValue, out: &mut Vec<char>)
    ensures
        final(out)@ == old(out)@ + json_of(v@),
{
    match v {
        InputValue::Null => {
            out.push('n');
            out.push('u');
            out.push('l');
            out.push('l');
            assert(out@ =~= old(out)@ + json_of(v@));
        },
        InputValue::Bool(b) => {
            if *b {
                out.push('t');
                out.push('r');
                out.push('u');
                out.push('e');
            } else {
                out.push('f');
                out.push('a');
                out.push('l');
                out.push('s');
                out.push('e');
            }
            assert(out@ =~= old(out)@ + json_of(v@));
        },
        InputValue::Uint(n) => {
            push_dec(*n, out);
        },
        InputValue::Int(i) => {
            if *i >= 0 {
                push_dec(*i as u64, out);
            } else {
                out.push('-');
                let m: u64 = if *i == i64::MIN {
                    9223372036854775808u64
                } else {
                    (-*i) as u64
                };
                push_dec(m, out);
                assert(out@ =~= old(out)@ + json_of(v@));
            }
        },
        InputValue::Text(s) => {
            out.push('"');
            push_esc(s.as_str(), out);
            out.push('"');
            assert(out@ =~= old(out)@ + json_of(v@));
        },
        InputValue::Raw(r) => {
            push_chars(r.as_str(), out);
        },
    }
}

/// Appends the characters of `s` to `out`.
pub fn push_chars(s: &str, out: &mut Vec<char>)
    ensures
        final(out)@ == old(out)@ + s@,
{
    let n = s.unicode_len();
    let mut i: usize = 0;
    while i < n
        invariant
            i <= n,
            n == s@.len(),
            out@ == old(out)@ + s@.take(i as int),
        decreases n - i,
    {
        out.push(s.get_char(i));
        assert(out@ =~= old(out)@ + s@.take(i + 1));
        i = i + 1;
    }
    assert(s@.take(n as int) =~= s@);
}

/// A step input that can be recorded in a trace.
///
/// Flow values carried through a chain render themselves to the recorded
/// JSON model through this trait; callers implement it for their own input
/// types the way they would implement a serializer.
pub trait StepInput {
    /// The recorded JSON model of the value.
    spec fn recorded_view(&self) -> VInput;

    /// Renders the value for the trace.
    fn to_recorded(&self) -> (v: InputValue)
        ensures
            v@ == self.recorded_view(),
    ;
}

impl StepInput for () {
    open spec fn recorded_view(&self) -> VInput {
        VInput::Null
    }

    fn to_recorded(&self) -> (v: InputValue) {
        InputValue::Null
    }
}

impl StepInput for bool {
    open spec fn recorded_view(&self) -> VInput {
        VInput::Bool(*self)
    }

    fn to_recorded(&self) -> (v: InputValue) {
        InputValue::Bool(*self)
    }
}

impl StepInput for u8 {
    open spec fn recorded_view(&self) -> VInput {
        VInput::Uint(*self as u64)
    }

    fn to_recorded(&self) -> (v: InputValue) {
        InputValue::Uint(*self as u64)
    }
}

impl StepInput for u16 {
    open spec fn recorded_view(&self) -> VInput {
        VInput::Uint(*self as u64)
    }

    fn to_recorded(&self) -> (v: InputValue) {
        InputValue::Uint(*self as u64)
    }
}

impl StepInput for u32 {
    open spec fn recorded_view(&self) -> VInput {
        VInput::Uint(*self as u64)
    }

    fn to_recorded(&self) -> (v: InputValue) {
        InputValue::Uint(*self as u64)
    }
}

impl StepInput for u64 {
    open spec fn recorded_view(&self) -> VInput {
        VInput::Uint(*self)
    }

    fn to_recorded(&self) -> (v: InputValue) {
        InputValue::Uint(*self)
    }
}

impl StepInput for i8 {
    open spec fn recorded_view(&self) -> VInput {
        VInput::Int(*self as i64)
    }

    fn to_recorded(&self) -> (v: InputValue) {
        InputValue::Int(*self as i64)
    }
}

impl StepInput for i16 {
    open spec fn recorded_view(&self) -> VInput {
        VInput::Int(*self as i64)
    }

    fn to_recorded(&self) -> (v: InputValue) {
        InputValue::Int(*self as i64)
    }
}

impl StepInput for i32 {
    open spec fn recorded_view(&self) -> VInput {
        VInput::Int(*self as i64)
    }

    fn to_recorded(&self) -> (v: InputValue) {
        InputValue::Int(*self as i64)
    }
}

impl StepInput for i64 {
    open spec fn recorded_view(&self) -> VInput {
        VInput::Int(*self)
    }

    fn to_recorded(&self) -> (v: InputValue) {
        InputValue::Int(*self)
    }
}

impl StepInput for String {
    open spec fn recorded_view(&self) -> VInput {
        VInput::Text(self@)
    }

    fn to_recorded(&self) -> (v: InputValue) {
        InputValue::Text(self.clone())
    }
}

impl StepInput for InputValue {
    open spec fn recorded_view(&self) -> VInput {
        self@
    }

    fn to_recorded(&self) -> (v: InputValue) {
        self.clone()
    }
}

impl<T: StepInput> StepInput for &T {
    open spec fn recorded_view(&self) -> VInput {
        (**self).recorded_view()
    }

    fn to_recorded(&self) -> (v: InputValue) {
        (**self).to_recorded()
    }
}

} // verus!
