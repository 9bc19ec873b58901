//! The wire decoder's foundation: a JSON reader for the remote service's
//! response bodies.
//!
//! The grammar is given twice: once as specification functions over
//! character sequences, which define exactly which texts are accepted and
//! what value each denotes, and once as executable code proved to return
//! precisely what the specification says. Numbers are kept when they are
//! plain integers that fit `i64`; any other syntactically valid number is
//! consumed and marked, since no field of the wire contract carries one.

use vstd::prelude::*;
use crate::text::is_scalar_value;

verus! {

/// A decoded JSON value.
#[derive(PartialEq, Eq, Debug)]
pub enum JsonValue {
    Null,
    Bool(bool),
    Int(i64),
    /// A syntactically valid number that is not a plain integer fitting
    /// `i64`: a fraction, an exponent, or an out-of-range magnitude. Its
    /// text is consumed; its value is not kept.
    NonInt,
    Text(String),
    Array(Vec<JsonValue>),
    Object(Vec<(String, JsonValue)>),
}

/// The mathematical shape of a decoded value.
pub enum JVal {
    Null,
    Bool(bool),
    Int(i64),
    NonInt,
    Text(Seq<char>),
    Arr(Seq<JVal>),
    Obj(Seq<(Seq<char>, JVal)>),
}

/// The shape of a decoded value.
pub open spec fn jview(v: JsonValue) -> JVal
    decreases v,
{
    match v {
        JsonValue::Null => JVal::Null,
        JsonValue::Bool(b) => JVal::Bool(b),
        JsonValue::Int(n) => JVal::Int(n),
        JsonValue::NonInt => JVal::NonInt,
        JsonValue::Text(s) => JVal::Text(s@),
        JsonValue::Array(a) => JVal::Arr(jseq(a@)),
        JsonValue::Object(m) => JVal::Obj(jobj(m@)),
    }
}

/// The shapes of a sequence of decoded values.
pub open spec fn jseq(a: Seq<JsonValue>) -> Seq<JVal>
    decreases a,
{
    Seq::new(
        a.len(),
        |k: int|
            if 0 <= k < a.len() {
                jview(a[k])
            } else {
                JVal::Null
            },
    )
}

/// The shapes of a sequence of decoded members.
pub open spec fn jobj(m: Seq<(String, JsonValue)>) -> Seq<(Seq<char>, JVal)>
    decreases m,
{
    Seq::new(
        m.len(),
        |k: int|
            if 0 <= k < m.len() {
                (m[k].0@, jview(m[k].1))
            } else {
                (Seq::empty(), JVal::Null)
            },
    )
}

/// JSON insignificant whitespace.
pub open spec fn is_ws(c: char) -> bool {
    c == ' ' || c == '\t' || c == '\n' || c == '\r'
}

/// The first index at or after `i` that does not hold whitespace.
pub open spec fn ws_end(s: Seq<char>, i: int) -> int
    decreases s.len() - i,
{
    if 0 <= i < s.len() && is_ws(s[i]) {
        ws_end(s, i + 1)
    } else {
        i
    }
}

/// An ASCII decimal digit.
pub open spec fn is_digit(c: char) -> bool {
    48 <= c as u32 <= 57
}

/// The first index at or after `i` that does not hold a digit.
pub open spec fn digits_end(s: Seq<char>, i: int) -> int
    decreases s.len() - i,
{
    if 0 <= i < s.len() && is_digit(s[i]) {
        digits_end(s, i + 1)
    } else {
        i
    }
}

/// The value of the digit run `s[i..j]`, most significant digit first.
pub open spec fn digits_val(s: Seq<char>, i: int, j: int) -> int
    decreases j - i,
{
    if j <= i {
        0
    } else {
        digits_val(s, i, j - 1) * 10 + (s[j - 1] as u32 - 48)
    }
}

/// The value of one hexadecimal digit.
pub open spec fn hex_val(c: char) -> Option<u32> {
    let u = c as u32;
    if 48 <= u <= 57 {
        Some((u - 48) as u32)
    } else if 97 <= u <= 102 {
        Some((u - 87) as u32)
    } else if 65 <= u <= 70 {
        Some((u - 55) as u32)
    } else {
        None
    }
}

/// The value of the four hexadecimal digits at `i`.
pub open spec fn sp_hex4(s: Seq<char>, i: int) -> Option<u32> {
    if i + 4 <= s.len() {
        match (hex_val(s[i]), hex_val(s[i + 1]), hex_val(s[i + 2]), hex_val(s[i + 3])) {
            (Some(a), Some(b), Some(c), Some(d)) => Some(
                (a * 0x1000 + b * 0x100 + c * 0x10 + d) as u32,
            ),
            _ => None,
        }
    } else {
        None
    }
}

/// A leading surrogate, which must be followed by a trailing one.
pub open spec fn is_high_surrogate(v: u32) -> bool {
    0xD800 <= v <= 0xDBFF
}

/// A trailing surrogate.
pub open spec fn is_low_surrogate(v: u32) -> bool {
    0xDC00 <= v <= 0xDFFF
}

/// The scalar value a surrogate pair stands for.
pub open spec fn surrogate_scalar(hi: u32, lo: u32) -> int {
    0x10000 + (hi - 0xD800) * 0x400 + (lo - 0xDC00)
}

/// Read a string body starting at `i` (just past the opening quote), with
/// `acc` the characters read so far: the decoded text and the index past
/// the closing quote, or `None` if the text is unterminated or an escape is
/// ill-formed.
pub open spec fn sp_str_body(s: Seq<char>, i: int, acc: Seq<char>) -> Option<(Seq<char>, int)>
    decreases s.len() - i,
{
    if i < 0 || i >= s.len() {
        None
    } else if s[i] == '"' {
        Some((acc, i + 1))
    } else if s[i] == '\\' {
        if i + 1 >= s.len() {
            None
        } else {
            let e = s[i + 1];
            if e == '"' {
                sp_str_body(s, i + 2, acc.push('"'))
            } else if e == '\\' {
                sp_str_body(s, i + 2, acc.push('\\'))
            } else if e == '/' {
                sp_str_body(s, i + 2, acc.push('/'))
            } else if e == 'b' {
                sp_str_body(s, i + 2, acc.push('\u{0008}'))
            } else if e == 'f' {
                sp_str_body(s, i + 2, acc.push('\u{000C}'))
            } else if e == 'n' {
                sp_str_body(s, i + 2, acc.push('\n'))
            } else if e == 'r' {
                sp_str_body(s, i + 2, acc.push('\r'))
            } else if e == 't' {
                sp_str_body(s, i + 2, acc.push('\t'))
            } else if e == 'u' {
                match sp_hex4(s, i + 2) {
                    Some(v) => if is_scalar_value(v) {
                        sp_str_body(s, i + 6, acc.push(v as char))
                    } else if is_high_surrogate(v) {
                        if i + 8 <= s.len() && s[i + 6] == '\\' && s[i + 7] == 'u' {
                            match sp_hex4(s, i + 8) {
                                Some(w) => if is_low_surrogate(w) {
                                    sp_str_body(
                                        s,
                                        i + 12,
                                        acc.push(((surrogate_scalar(v, w)) as u32) as char),
                                    )
                                } else {
                                    None
                                },
                                None => None,
                            }
                        } else {
                            None
                        }
                    } else {
                        None
                    },
                    None => None,
                }
            } else {
                None
            }
        }
    } else {
        sp_str_body(s, i + 1, acc.push(s[i]))
    }
}

/// Read past a number's fraction and exponent, starting at the first
/// character after its integer digits: the index past the number, or
/// `None` if a started fraction or exponent has no digits.
pub open spec fn sp_num_tail(s: Seq<char>, i: int) -> Option<int> {
    let j = if 0 <= i < s.len() && s[i] == '.' {
        let e = digits_end(s, i + 1);
        if e == i + 1 {
            -1
        } else {
            e
        }
    } else {
        i
    };
    if j < 0 {
        None
    } else if 0 <= j < s.len() && (s[j] == 'e' || s[j] == 'E') {
        let k = if j + 2 <= s.len() && (s[j + 1] == '+' || s[j + 1] == '-') {
            j + 2
        } else {
            j + 1
        };
        let e2 = digits_end(s, k);
        if e2 == k {
            None
        } else {
            Some(e2)
        }
    } else {
        Some(j)
    }
}

/// Read a number starting at `i`: its value and the index past it.
///
/// A plain integer that fits `i64` is kept as `Int`; any other well-formed
/// number is consumed as `NonInt`. More than 19 digits cannot fit `i64`,
/// so such a run is consumed without computing its value.
pub open spec fn sp_number(s: Seq<char>, i: int) -> Option<(JVal, int)> {
    let neg = 0 <= i < s.len() && s[i] == '-';
    let d0 = if neg {
        i + 1
    } else {
        i
    };
    let de = digits_end(s, d0);
    if de == d0 {
        None
    } else if de < s.len() && (s[de] == '.' || s[de] == 'e' || s[de] == 'E') {
        match sp_num_tail(s, de) {
            Some(end) => Some((JVal::NonInt, end)),
            None => None,
        }
    } else if de - d0 > 19 {
        Some((JVal::NonInt, de))
    } else {
        let v = digits_val(s, d0, de);
        if !neg && v <= i64::MAX as int {
            Some((JVal::Int(v as i64), de))
        } else if neg && v <= i64::MAX as int + 1 {
            Some((JVal::Int((-v) as i64), de))
        } else {
            Some((JVal::NonInt, de))
        }
    }
}

/// Read one value starting at `i`, which must not point at whitespace: the
/// value and the index just past it.
pub open spec fn sp_value(s: Seq<char>, i: int) -> Option<(JVal, int)>
    decreases s.len() - i, 0int,
{
    if i < 0 || i >= s.len() {
        None
    } else if s[i] == '"' {
        match sp_str_body(s, i + 1, Seq::empty()) {
            Some((txt, j)) => Some((JVal::Text(txt), j)),
            None => None,
        }
    } else if s[i] == '[' {
        let j = ws_end(s, i + 1);
        if j >= s.len() {
            None
        } else if s[j] == ']' {
            Some((JVal::Arr(Seq::empty()), j + 1))
        } else if j <= i {
            None
        } else {
            match sp_elems(s, j, Seq::empty()) {
                Some((items, end)) => Some((JVal::Arr(items), end)),
                None => None,
            }
        }
    } else if s[i] == '{' {
        let j = ws_end(s, i + 1);
        if j >= s.len() {
            None
        } else if s[j] == '}' {
            Some((JVal::Obj(Seq::empty()), j + 1))
        } else if j <= i {
            None
        } else {
            match sp_members(s, j, Seq::empty()) {
                Some((members, end)) => Some((JVal::Obj(members), end)),
                None => None,
            }
        }
    } else if s[i] == 't' {
        if i + 4 <= s.len() && s[i + 1] == 'r' && s[i + 2] == 'u' && s[i + 3] == 'e' {
            Some((JVal::Bool(true), i + 4))
        } else {
            None
        }
    } else if s[i] == 'f' {
        if i + 5 <= s.len() && s[i + 1] == 'a' && s[i + 2] == 'l' && s[i + 3] == 's' && s[i + 4]
            == 'e' {
            Some((JVal::Bool(false), i + 5))
        } else {
            None
        }
    } else if s[i] == 'n' {
        if i + 4 <= s.len() && s[i + 1] == 'u' && s[i + 2] == 'l' && s[i + 3] == 'l' {
            Some((JVal::Null, i + 4))
        } else {
            None
        }
    } else if s[i] == '-' || is_digit(s[i]) {
        sp_number(s, i)
    } else {
        None
    }
}

/// Read the elements of a non-empty array, starting at the first character
/// of a value, with `acc` the elements read so far: the elements and the
/// index past the closing bracket.
pub open spec fn sp_elems(s: Seq<char>, i: int, acc: Seq<JVal>) -> Option<(Seq<JVal>, int)>
    decreases s.len() - i, 1int,
{
    match sp_value(s, i) {
        None => None,
        Some((v, j)) => {
            if j <= i {
                None
            } else {
                let k = ws_end(s, j);
                if k >= s.len() {
                    None
                } else if s[k] == ']' {
                    Some((acc.push(v), k + 1))
                } else if s[k] == ',' {
                    let m = ws_end(s, k + 1);
                    if m <= i || m > s.len() {
                        None
                    } else {
                        sp_elems(s, m, acc.push(v))
                    }
                } else {
                    None
                }
            }
        },
    }
}

/// Read the members of a non-empty object, starting at the opening quote
/// of a key, with `acc` the members read so far: the members and the index
/// past the closing brace.
pub open spec fn sp_members(s: Seq<char>, i: int, acc: Seq<(Seq<char>, JVal)>) -> Option<
    (Seq<(Seq<char>, JVal)>, int),
>
    decreases s.len() - i, 1int,
{
    if i < 0 || i >= s.len() || s[i] != '"' {
        None
    } else {
        match sp_str_body(s, i + 1, Seq::empty()) {
            None => None,
            Some((key, j)) => {
                let k = ws_end(s, j);
                if k >= s.len() || s[k] != ':' {
                    None
                } else {
                    let m = ws_end(s, k + 1);
                    if m <= i || m > s.len() {
                        None
                    } else {
                        match sp_value(s, m) {
                            None => None,
                            Some((v, e)) => {
                                if e <= m {
                                    None
                                } else {
                                    let p = ws_end(s, e);
                                    if p >= s.len() {
                                        None
                                    } else if s[p] == '}' {
                                        Some((acc.push((key, v)), p + 1))
                                    } else if s[p] == ',' {
                                        let q = ws_end(s, p + 1);
                                        if q <= i || q > s.len() {
                                            None
                                        } else {
                                            sp_members(s, q, acc.push((key, v)))
                                        }
                                    } else {
                                        None
                                    }
                                }
                            },
                        }
                    }
                }
            },
        }
    }
}

/// 10 to the `k`.
pub open spec fn pow10(k: nat) -> int
    decreases k,
{
    if k == 0 {
        1
    } else {
        10 * pow10((k - 1) as nat)
    }
}

proof fn lemma_pow10_pos(k: nat)
    ensures
        pow10(k) >= 1,
    decreases k,
{
    if k > 0 {
        lemma_pow10_pos((k - 1) as nat);
    }
}

proof fn lemma_pow10_mono(a: nat, b: nat)
    requires
        a <= b,
    ensures
        pow10(a) <= pow10(b),
    decreases b,
{
    if a < b {
        lemma_pow10_mono(a, (b - 1) as nat);
        lemma_pow10_pos((b - 1) as nat);
    }
}

/// A digit run is bounded by its position, stays inside the text, and holds
/// digits only.
proof fn lemma_digits_range(s: Seq<char>, i: int)
    ensures
        i <= digits_end(s, i),
        i <= s.len() ==> digits_end(s, i) <= s.len(),
        forall|k: int| i <= k < digits_end(s, i) ==> is_digit(#[trigger] s[k]),
    decreases s.len() - i,
{
    if 0 <= i < s.len() && is_digit(s[i]) {
        lemma_digits_range(s, i + 1);
    }
}

/// Skip insignificant whitespace.
fn skip_ws(s: &Vec<char>, i: usize) -> (r: usize)
    requires
        i <= s@.len(),
    ensures
        r == ws_end(s@, i as int),
        i <= r <= s@.len(),
{
    let n = s.len();
    let mut j = i;
    while j < n
        invariant
            i <= j <= n,
            n == s@.len(),
            ws_end(s@, i as int) == ws_end(s@, j as int),
        decreases n - j,
    {
        let c = s[j];
        if c == ' ' || c == '\t' || c == '\n' || c == '\r' {
            proof {
                assert(ws_end(s@, j as int) == ws_end(s@, j + 1));
            }
            j += 1;
        } else {
            proof {
                assert(ws_end(s@, j as int) == j as int);
            }
            return j;
        }
    }
    proof {
        assert(ws_end(s@, j as int) == j as int);
    }
    j
}

/// Skip a run of decimal digits.
fn skip_digits(s: &Vec<char>, i: usize) -> (r: usize)
    requires
        i <= s@.len(),
    ensures
        r == digits_end(s@, i as int),
        i <= r <= s@.len(),
{
    let n = s.len();
    let mut j = i;
    while j < n
        invariant
            i <= j <= n,
            n == s@.len(),
            digits_end(s@, i as int) == digits_end(s@, j as int),
        decreases n - j,
    {
        let u = s[j] as u32;
        if 48 <= u && u <= 57 {
            proof {
                assert(digits_end(s@, j as int) == digits_end(s@, j + 1));
            }
            j += 1;
        } else {
            proof {
                assert(digits_end(s@, j as int) == j as int);
            }
            return j;
        }
    }
    proof {
        assert(digits_end(s@, j as int) == j as int);
    }
    j
}

/// One hexadecimal digit.
fn hex_digit(c: char) -> (r: Option<u32>)
    ensures
        r == hex_val(c),
{
    let u = c as u32;
    if 48 <= u && u <= 57 {
        Some(u - 48)
    } else if 97 <= u && u <= 102 {
        Some(u - 87)
    } else if 65 <= u && u <= 70 {
        Some(u - 55)
    } else {
        None
    }
}

/// Four hexadecimal digits.
fn parse_hex4(s: &Vec<char>, i: usize) -> (r: Option<u32>)
    requires
        i <= s@.len(),
    ensures
        r == sp_hex4(s@, i as int),
{
    if s.len() - i < 4 {
        return None;
    }
    match (hex_digit(s[i]), hex_digit(s[i + 1]), hex_digit(s[i + 2]), hex_digit(s[i + 3])) {
        (Some(a), Some(b), Some(c), Some(d)) => Some(a * 0x1000 + b * 0x100 + c * 0x10 + d),
        _ => None,
    }
}

/// Read a string body, mirroring `sp_str_body` from an empty accumulator.
fn parse_string_body(s: &Vec<char>, start: usize) -> (r: Option<(String, usize)>)
    requires
        start <= s@.len(),
    ensures
        match r {
            Some(p) => sp_str_body(s@, start as int, Seq::empty()) == Some((p.0@, p.1 as int))
                && start < p.1 <= s@.len(),
            None => sp_str_body(s@, start as int, Seq::empty()) is None,
        },
{
    let n = s.len();
    let mut acc = String::new();
    let mut j = start;
    loop
        invariant
            start <= j <= n,
            n == s@.len(),
            sp_str_body(s@, start as int, Seq::empty()) == sp_str_body(s@, j as int, acc@),
        decreases n - j,
    {
        if j >= n {
            return None;
        }
        let c = s[j];
        if c == '"' {
            return Some((acc, j + 1));
        }
        if c == '\\' {
            if j + 1 >= n {
                return None;
            }
            let e = s[j + 1];
            if e == '"' {
                crate::text::push_char(&mut acc, '"');
                j += 2;
            } else if e == '\\' {
                crate::text::push_char(&mut acc, '\\');
                j += 2;
            } else if e == '/' {
                crate::text::push_char(&mut acc, '/');
                j += 2;
            } else if e == 'b' {
                crate::text::push_char(&mut acc, '\u{0008}');
                j += 2;
            } else if e == 'f' {
                crate::text::push_char(&mut acc, '\u{000C}');
                j += 2;
            } else if e == 'n' {
                crate::text::push_char(&mut acc, '\n');
                j += 2;
            } else if e == 'r' {
                crate::text::push_char(&mut acc, '\r');
                j += 2;
            } else if e == 't' {
                crate::text::push_char(&mut acc, '\t');
                j += 2;
            } else if e == 'u' {
                match parse_hex4(s, j + 2) {
                    None => {
                        return None;
                    },
                    Some(v) => {
                        match crate::text::char_from_u32(v) {
                            Some(c2) => {
                                proof {
                                    vstd::utf8::char_u32_cast(c2, v);
                                }
                                crate::text::push_char(&mut acc, c2);
                                j += 6;
                            },
                            None => {
                                if 0xD800 <= v && v <= 0xDBFF {
                                    if n - (j + 2) < 6 || !(s[j + 6] == '\\' && s[j + 7] == 'u') {
                                        return None;
                                    }
                                    match parse_hex4(s, j + 8) {
                                        None => {
                                            return None;
                                        },
                                        Some(w) => {
                                            if !(0xDC00 <= w && w <= 0xDFFF) {
                                                return None;
                                            }
                                            let code: u32 = 0x10000 + (v - 0xD800) * 0x400 + (w
                                                - 0xDC00);
                                            match crate::text::char_from_u32(code) {
                                                Some(c3) => {
                                                    proof {
                                                        vstd::utf8::char_u32_cast(c3, code);
                                                    }
                                                    crate::text::push_char(&mut acc, c3);
                                                    j += 12;
                                                },
                                                None => {
                                                    proof {
                                                        assert(false);
                                                    }
                                                    return None;
                                                },
                                            }
                                        },
                                    }
                                } else {
                                    return None;
                                }
                            },
                        }
                    },
                }
            } else {
                return None;
            }
        } else {
            crate::text::push_char(&mut acc, c);
            j += 1;
        }
    }
}

/// Read a number, mirroring `sp_number`.
fn parse_number(s: &Vec<char>, i: usize) -> (r: Option<(JsonValue, usize)>)
    requires
        i < s@.len(),
        s@[i as int] == '-' || is_digit(s@[i as int]),
    ensures
        match r {
            Some(p) => sp_number(s@, i as int) == Some((jview(p.0), p.1 as int)) && i < p.1
                <= s@.len(),
            None => sp_number(s@, i as int) is None,
        },
{
    let n = s.len();
    let neg = s[i] == '-';
    let d0 = if neg {
        i + 1
    } else {
        i
    };
    let de = skip_digits(s, d0);
    proof {
        lemma_digits_range(s@, d0 as int);
    }
    if de == d0 {
        return None;
    }
    if de < n && (s[de] == '.' || s[de] == 'e' || s[de] == 'E') {
        let mut j = de;
        if s[j] == '.' {
            let e = skip_digits(s, j + 1);
            if e == j + 1 {
                return None;
            }
            j = e;
        }
        if j < n && (s[j] == 'e' || s[j] == 'E') {
            let k = if j + 1 < n && (s[j + 1] == '+' || s[j + 1] == '-') {
                j + 2
            } else {
                j + 1
            };
            let e2 = skip_digits(s, k);
            if e2 == k {
                return None;
            }
            return Some((JsonValue::NonInt, e2));
        }
        return Some((JsonValue::NonInt, j));
    }
    if de - d0 > 19 {
        return Some((JsonValue::NonInt, de));
    }
    let mut acc: u64 = 0;
    let mut t = d0;
    while t < de
        invariant
            d0 <= t <= de,
            de == digits_end(s@, d0 as int),
            de - d0 <= 19,
            n == s@.len(),
            de <= n,
            forall|k: int| d0 <= k < de ==> is_digit(#[trigger] s@[k]),
            acc == digits_val(s@, d0 as int, t as int),
            acc < pow10((t - d0) as nat),
        decreases de - t,
    {
        proof {
            lemma_pow10_mono((t - d0) as nat, 18);
            assert(pow10(18) == 1000000000000000000) by {
                reveal_with_fuel(pow10, 20);
            }
        }
        let u = s[t] as u32;
        acc = acc * 10 + (u - 48) as u64;
        t += 1;
    }
    proof {
        lemma_pow10_mono((de - d0) as nat, 19);
        assert(pow10(19) == 10000000000000000000) by {
            reveal_with_fuel(pow10, 21);
        }
    }
    if !neg {
        if acc <= 0x7FFF_FFFF_FFFF_FFFF {
            return Some((JsonValue::Int(acc as i64), de));
        }
        return Some((JsonValue::NonInt, de));
    }
    if acc <= 0x7FFF_FFFF_FFFF_FFFF {
        return Some((JsonValue::Int(-(acc as i64)), de));
    }
    if acc == 0x8000_0000_0000_0000 {
        return Some((JsonValue::Int(i64::MIN), de));
    }
    Some((JsonValue::NonInt, de))
}

/// Read a whole text as one JSON value: the value, or `None` if the text
/// is not a single well-formed value with only whitespace around it.
pub open spec fn sp_json(s: Seq<char>) -> Option<JVal> {
    let i = ws_end(s, 0);
    match sp_value(s, i) {
        Some((v, j)) => if ws_end(s, j) == s.len() {
            Some(v)
        } else {
            None
        },
        None => None,
    }
}

/// Read one value, mirroring `sp_value`.
fn parse_value(s: &Vec<char>, i: usize) -> (r: Option<(JsonValue, usize)>)
    requires
        i <= s@.len(),
    ensures
        match r {
            Some(p) => sp_value(s@, i as int) == Some((jview(p.0), p.1 as int)) && i < p.1
                <= s@.len(),
            None => sp_value(s@, i as int) is None,
        },
    decreases s@.len() - i,
{
    let n = s.len();
    if i >= n {
        return None;
    }
    let c = s[i];
    if c == '"' {
        match parse_string_body(s, i + 1) {
            Some((txt, j)) => Some((JsonValue::Text(txt), j)),
            None => None,
        }
    } else if c == '[' {
        let j0 = skip_ws(s, i + 1);
        if j0 >= n {
            return None;
        }
        if s[j0] == ']' {
            let empty: Vec<JsonValue> = Vec::new();
            proof {
                assert(jseq(empty@) =~= Seq::<JVal>::empty());
            }
            return Some((JsonValue::Array(empty), j0 + 1));
        }
        let mut items: Vec<JsonValue> = Vec::new();
        let mut cur = j0;
        proof {
            assert(jseq(items@) =~= Seq::<JVal>::empty());
        }
        loop
            invariant
                i < cur <= n,
                j0 <= cur,
                n == s@.len(),
                i < j0 < n,
                s@[i as int] == '[',
                j0 == ws_end(s@, i as int + 1),
                s@[j0 as int] != ']',
                sp_elems(s@, j0 as int, Seq::empty()) == sp_elems(s@, cur as int, jseq(items@)),
            decreases n - cur,
        {
            match parse_value(s, cur) {
                None => {
                    return None;
                },
                Some((v, jv)) => {
                    let ghost items0 = items@;
                    let k = skip_ws(s, jv);
                    if k >= n {
                        return None;
                    }
                    if s[k] == ']' {
                        items.push(v);
                        proof {
                            assert(jseq(items@) =~= jseq(items0).push(jview(v)));
                        }
                        return Some((JsonValue::Array(items), k + 1));
                    }
                    if s[k] == ',' {
                        let m = skip_ws(s, k + 1);
                        items.push(v);
                        proof {
                            assert(jseq(items@) =~= jseq(items0).push(jview(v)));
                        }
                        cur = m;
                    } else {
                        return None;
                    }
                },
            }
        }
    } else if c == '{' {
        let j0 = skip_ws(s, i + 1);
        if j0 >= n {
            return None;
        }
        if s[j0] == '}' {
            let empty: Vec<(String, JsonValue)> = Vec::new();
            proof {
                assert(jobj(empty@) =~= Seq::<(Seq<char>, JVal)>::empty());
            }
            return Some((JsonValue::Object(empty), j0 + 1));
        }
        let mut members: Vec<(String, JsonValue)> = Vec::new();
        let mut cur = j0;
        proof {
            assert(jobj(members@) =~= Seq::<(Seq<char>, JVal)>::empty());
        }
        loop
            invariant
                i < cur <= n,
                j0 <= cur,
                n == s@.len(),
                i < j0 < n,
                s@[i as int] == '{',
                j0 == ws_end(s@, i as int + 1),
                s@[j0 as int] != '}',
                sp_members(s@, j0 as int, Seq::empty()) == sp_members(
                    s@,
                    cur as int,
                    jobj(members@),
                ),
            decreases n - cur,
        {
            if cur >= n {
                return None;
            }
            if s[cur] != '"' {
                return None;
            }
            match parse_string_body(s, cur + 1) {
                None => {
                    return None;
                },
                Some((key, jk)) => {
                    let k = skip_ws(s, jk);
                    if k >= n {
                        return None;
                    }
                    if s[k] != ':' {
                        return None;
                    }
                    let m = skip_ws(s, k + 1);
                    match parse_value(s, m) {
                        None => {
                            return None;
                        },
                        Some((v, e)) => {
                            let ghost members0 = members@;
                            let p = skip_ws(s, e);
                            if p >= n {
                                return None;
                            }
                            if s[p] == '}' {
                                members.push((key, v));
                                proof {
                                    assert(jobj(members@) =~= jobj(members0).push(
                                        (key@, jview(v)),
                                    ));
                                }
                                return Some((JsonValue::Object(members), p + 1));
                            }
                            if s[p] == ',' {
                                let q = skip_ws(s, p + 1);
                                members.push((key, v));
                                proof {
                                    assert(jobj(members@) =~= jobj(members0).push(
                                        (key@, jview(v)),
                                    ));
                                }
                                cur = q;
                            } else {
                                return None;
                            }
                        },
                    }
                },
            }
        }
    } else if c == 't' {
        if n - i >= 4 && s[i + 1] == 'r' && s[i + 2] == 'u' && s[i + 3] == 'e' {
            Some((JsonValue::Bool(true), i + 4))
        } else {
            None
        }
    } else if c == 'f' {
        if n - i >= 5 && s[i + 1] == 'a' && s[i + 2] == 'l' && s[i + 3] == 's' && s[i + 4] == 'e' {
            Some((JsonValue::Bool(false), i + 5))
        } else {
            None
        }
    } else if c == 'n' {
        if n - i >= 4 && s[i + 1] == 'u' && s[i + 2] == 'l' && s[i + 3] == 'l' {
            Some((JsonValue::Null, i + 4))
        } else {
            None
        }
    } else {
        let u = c as u32;
        if c == '-' || (48 <= u && u <= 57) {
            parse_number(s, i)
        } else {
            None
        }
    }
}

/// Read a whole text as one JSON value, mirroring `sp_json`.
pub fn parse_json(s: &Vec<char>) -> (r: Option<JsonValue>)
    ensures
        match r {
            Some(v) => sp_json(s@) == Some(jview(v)),
            None => sp_json(s@) is None,
        },
{
    let i = skip_ws(s, 0);
    match parse_value(s, i) {
        Some((v, j)) => {
            let e = skip_ws(s, j);
            if e == s.len() {
                Some(v)
            } else {
                None
            }
        },
        None => None,
    }
}

} // verus!
