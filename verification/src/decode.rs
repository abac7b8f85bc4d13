//! Decoder: turns a raw message payload into a validated reading.
//!
//! A payload is UTF-8 structured text: an object `{ ... }` with a required
//! `device` field (non-empty string), a required `temp` field (number), and
//! an optional `humidity` field (number, or `null`; both absence and `null`
//! default to 0.0). Unknown fields are skipped, whatever their shape; a
//! duplicated field, a missing or wrong-typed required field, or any text
//! outside the grammar is a `DecodeError::Malformed`.
//!
//! The grammar is specified by the `spec_*` functions below and the
//! executable parser is proved to follow them exactly. String values support
//! the escapes `\" \\ \/ \b \f \n \r \t` and `\u` followed by four
//! hexadecimal digits, surrogate pairs included; a lone surrogate is
//! rejected. Number tokens follow the usual decimal grammar
//! `-? (0 | [1-9][0-9]*) (. [0-9]+)? ([eE][+-]?[0-9]+)?` and are carried as
//! the exact bytes of the token; callers give them double-precision meaning
//! with the standard library's parser. Out-of-range and extreme values are
//! therefore accepted as they stand; no plausibility check is made on
//! sensor values.

use vstd::prelude::*;
use crate::models::ReadingView;
use crate::models::SensorData;

verus! {

/// A payload that cannot be decoded into a reading.
#[derive(Clone, Copy, PartialEq, Eq, Structural, Debug)]
pub enum DecodeError {
    /// The payload is not valid structured text, a required field is missing
    /// or wrong-typed, a field is duplicated, or `device` is empty.
    Malformed,
}

// Byte values used by the grammar, by name:
// 9 tab, 10 newline, 13 return, 32 space, 34 '"', 44 ',', 45 '-', 46 '.',
// 47 '/', 48 '0', 57 '9', 58 ':', 69 'E', 91 '[', 93 ']', 92 '\', 101 'e',
// 123 '{', 125 '}'.

/// Whitespace accepted between tokens.
pub open spec fn is_ws(b: u8) -> bool {
    b == 32 || b == 9 || b == 10 || b == 13
}

/// A decimal digit.
pub open spec fn is_digit(b: u8) -> bool {
    48 <= b && b <= 57
}

/// First position at or after `i` that does not hold whitespace.
pub open spec fn spec_ws(s: Seq<u8>, i: int) -> int
    decreases s.len() - i,
{
    if 0 <= i && i < s.len() && is_ws(s[i]) {
        spec_ws(s, i + 1)
    } else {
        i
    }
}

/// The byte an escape sequence `\x` stands for, if `x` is a supported
/// escape character.
pub open spec fn escape_byte(e: u8) -> Option<u8> {
    if e == 34 {
        Some(34u8)
    } else if e == 92 {
        Some(92u8)
    } else if e == 47 {
        Some(47u8)
    } else if e == 98 {  // b
        Some(8u8)
    } else if e == 102 {  // f
        Some(12u8)
    } else if e == 110 {  // n
        Some(10u8)
    } else if e == 114 {  // r
        Some(13u8)
    } else if e == 116 {  // t
        Some(9u8)
    } else {
        None
    }
}

/// The value of a hexadecimal digit.
pub open spec fn hex_val(b: u8) -> Option<int> {
    if 48 <= b && b <= 57 {  // 0-9
        Some((b - 48) as int)
    } else if 97 <= b && b <= 102 {  // a-f
        Some((b - 87) as int)
    } else if 65 <= b && b <= 70 {  // A-F
        Some((b - 55) as int)
    } else {
        None
    }
}

/// The value of four hexadecimal digits at `i`.
pub open spec fn spec_hex4(s: Seq<u8>, i: int) -> Option<int> {
    if 0 <= i && i + 4 <= s.len() {
        match (hex_val(s[i]), hex_val(s[i + 1]), hex_val(s[i + 2]), hex_val(s[i + 3])) {
            (Some(a), Some(b), Some(c), Some(d)) => Some(a * 4096 + b * 256 + c * 16 + d),
            _ => None,
        }
    } else {
        None
    }
}

/// The UTF-8 bytes of the code point `c`.
pub open spec fn utf8_enc(c: int) -> Seq<u8> {
    if c < 0x80 {
        seq![c as u8]
    } else if c < 0x800 {
        seq![(0xC0 + c / 64) as u8, (0x80 + c % 64) as u8]
    } else if c < 0x10000 {
        seq![(0xE0 + c / 4096) as u8, (0x80 + (c / 64) % 64) as u8, (0x80 + c % 64) as u8]
    } else {
        seq![
            (0xF0 + c / 262144) as u8,
            (0x80 + (c / 4096) % 64) as u8,
            (0x80 + (c / 64) % 64) as u8,
            (0x80 + c % 64) as u8,
        ]
    }
}

/// A `\u` escape at `i` (`s[i]` is the backslash): four hexadecimal digits,
/// a high surrogate only as the first half of a surrogate pair, a lone low
/// surrogate never. Yields the position after the whole escape and the
/// UTF-8 bytes of the code point.
pub open spec fn spec_u_escape(s: Seq<u8>, i: int) -> Option<(int, Seq<u8>)> {
    match spec_hex4(s, i + 2) {
        None => None,
        Some(cp) => if 0xD800 <= cp && cp <= 0xDBFF {
            if i + 8 <= s.len() && s[i + 6] == 92 && s[i + 7] == 117 {
                match spec_hex4(s, i + 8) {
                    None => None,
                    Some(lo) => if 0xDC00 <= lo && lo <= 0xDFFF {
                        Some((i + 12, utf8_enc(0x10000 + (cp - 0xD800) * 0x400 + (lo - 0xDC00))))
                    } else {
                        None
                    },
                }
            } else {
                None
            }
        } else if 0xDC00 <= cp && cp <= 0xDFFF {
            None
        } else {
            Some((i + 6, utf8_enc(cp)))
        },
    }
}

/// Scan of a string body starting at `i` (just after the opening quote),
/// with `acc` the bytes decoded so far. Yields the position after the
/// closing quote and the decoded bytes, or nothing if the text to the end
/// never closes the string, holds a raw control byte, or uses an
/// unsupported escape.
pub open spec fn spec_string(s: Seq<u8>, i: int, acc: Seq<u8>) -> Option<(int, Seq<u8>)>
    decreases s.len() - i,
{
    if i < 0 || i >= s.len() {
        None
    } else if s[i] == 34 {
        Some((i + 1, acc))
    } else if s[i] == 92 {
        if i + 1 < s.len() && s[i + 1] == 117 {  // u
            match spec_u_escape(s, i) {
                None => None,
                Some((next, bytes)) => if !(i < next && next <= s.len()) {
                    None
                } else {
                    spec_string(s, next, acc + bytes)
                },
            }
        } else if i + 1 < s.len() {
            match escape_byte(s[i + 1]) {
                Some(b) => spec_string(s, i + 2, acc.push(b)),
                None => None,
            }
        } else {
            None
        }
    } else if s[i] < 32 {
        None
    } else {
        spec_string(s, i + 1, acc.push(s[i]))
    }
}

/// First position at or after `i` that does not hold a digit.
pub open spec fn spec_digits(s: Seq<u8>, i: int) -> int
    decreases s.len() - i,
{
    if 0 <= i && i < s.len() && is_digit(s[i]) {
        spec_digits(s, i + 1)
    } else {
        i
    }
}

/// End of an optional fraction part at `k`: a `.` must be followed by at
/// least one digit.
pub open spec fn spec_frac(s: Seq<u8>, k: int) -> Option<int> {
    if 0 <= k && k < s.len() && s[k] == 46 {
        let d = spec_digits(s, k + 1);
        if d > k + 1 {
            Some(d)
        } else {
            None
        }
    } else {
        Some(k)
    }
}

/// End of an optional exponent part at `k`: `e` or `E`, an optional sign,
/// and at least one digit.
pub open spec fn spec_exp(s: Seq<u8>, k: int) -> Option<int> {
    if 0 <= k && k < s.len() && (s[k] == 101 || s[k] == 69) {
        let j = if k + 1 < s.len() && (s[k + 1] == 43 || s[k + 1] == 45) {
            k + 2
        } else {
            k + 1
        };
        let d = spec_digits(s, j);
        if d > j {
            Some(d)
        } else {
            None
        }
    } else {
        Some(k)
    }
}

/// End of a number token starting at `i`, if one starts there. The integer
/// part is a single `0` or starts with a non-zero digit.
pub open spec fn spec_number(s: Seq<u8>, i: int) -> Option<int> {
    let j = if 0 <= i && i < s.len() && s[i] == 45 {
        i + 1
    } else {
        i
    };
    if 0 <= j && j < s.len() && is_digit(s[j]) {
        let k = if s[j] == 48 {
            j + 1
        } else {
            spec_digits(s, j)
        };
        match spec_frac(s, k) {
            None => None,
            Some(k2) => spec_exp(s, k2),
        }
    } else {
        None
    }
}

/// Four given bytes stand at `i`.
pub open spec fn lit4(s: Seq<u8>, i: int, a: u8, b: u8, c: u8, d: u8) -> bool {
    0 <= i && i + 4 <= s.len() && s[i] == a && s[i + 1] == b && s[i + 2] == c && s[i + 3] == d
}

// In the mutually recursive scans below, the explicit range checks on
// positions returned by other scans are never taken (every scan moves
// forward and stays within the input); they stand so that each recursive
// call visibly advances.

/// End of a value starting at `i`: a string, number, object, array, `true`,
/// `false` or `null`. Used to skip the value of an unknown field.
pub open spec fn spec_value(s: Seq<u8>, i: int) -> Option<int>
    decreases s.len() - i, 0int,
{
    if i < 0 || i >= s.len() {
        None
    } else if s[i] == 34 {
        match spec_string(s, i + 1, Seq::<u8>::empty()) {
            Some((j, _v)) => Some(j),
            None => None,
        }
    } else if s[i] == 123 {
        let j = spec_ws(s, i + 1);
        if !(i + 1 <= j && j <= s.len()) {
            None
        } else if j < s.len() && s[j] == 125 {
            Some(j + 1)
        } else {
            spec_obj_items(s, j)
        }
    } else if s[i] == 91 {
        let j = spec_ws(s, i + 1);
        if !(i + 1 <= j && j <= s.len()) {
            None
        } else if j < s.len() && s[j] == 93 {
            Some(j + 1)
        } else {
            spec_arr_items(s, j)
        }
    } else if lit4(s, i, 116, 114, 117, 101) {  // true
        Some(i + 4)
    } else if lit4(s, i, 110, 117, 108, 108) {  // null
        Some(i + 4)
    } else if lit4(s, i, 102, 97, 108, 115) && i + 5 <= s.len() && s[i + 4] == 101 {  // false
        Some(i + 5)
    } else {
        spec_number(s, i)
    }
}

/// End of the items of an array, entered at the position of the first value.
pub open spec fn spec_arr_items(s: Seq<u8>, i: int) -> Option<int>
    decreases s.len() - i, 1int,
{
    match spec_value(s, i) {
        None => None,
        Some(j) => if !(i < j && j <= s.len()) {
            None
        } else {
            let k = spec_ws(s, j);
            if !(j <= k && k <= s.len()) {
                None
            } else if k < s.len() && s[k] == 44 {
                let m = spec_ws(s, k + 1);
                if !(k + 1 <= m && m <= s.len()) {
                    None
                } else {
                    spec_arr_items(s, m)
                }
            } else if k < s.len() && s[k] == 93 {
                Some(k + 1)
            } else {
                None
            }
        },
    }
}

/// End of the members of an object being skipped, entered at the position
/// of a key.
pub open spec fn spec_obj_items(s: Seq<u8>, i: int) -> Option<int>
    decreases s.len() - i, 1int,
{
    if !(0 <= i && i < s.len() && s[i] == 34) {
        None
    } else {
        match spec_string(s, i + 1, Seq::<u8>::empty()) {
            None => None,
            Some((j, _key)) => if !(i + 1 < j && j <= s.len()) {
                None
            } else {
                let k = spec_ws(s, j);
                if !(j <= k && k <= s.len()) {
                    None
                } else if k < s.len() && s[k] == 58 {
                    let m = spec_ws(s, k + 1);
                    if !(k + 1 <= m && m <= s.len()) {
                        None
                    } else {
                        match spec_value(s, m) {
                            None => None,
                            Some(v) => if !(m < v && v <= s.len()) {
                                None
                            } else {
                                let w = spec_ws(s, v);
                                if !(v <= w && w <= s.len()) {
                                    None
                                } else if w < s.len() && s[w] == 44 {
                                    let x = spec_ws(s, w + 1);
                                    if !(w + 1 <= x && x <= s.len()) {
                                        None
                                    } else {
                                        spec_obj_items(s, x)
                                    }
                                } else if w < s.len() && s[w] == 125 {
                                    Some(w + 1)
                                } else {
                                    None
                                }
                            },
                        }
                    }
                } else {
                    None
                }
            },
        }
    }
}

/// What the top-level scan has found so far of the three known fields.
/// `None` means the field has not appeared. A `null` humidity is
/// `Some(zero_token())` — the default the decoder owes.
pub struct Fields {
    pub device: Option<Seq<u8>>,
    pub temp: Option<Seq<u8>>,
    pub humidity: Option<Seq<u8>>,
}

pub open spec fn empty_fields() -> Fields {
    Fields { device: None, temp: None, humidity: None }
}

/// The bytes of the key `device`.
pub open spec fn device_key() -> Seq<u8> {
    seq![100u8, 101u8, 118u8, 105u8, 99u8, 101u8]
}

/// The bytes of the key `temp`.
pub open spec fn temp_key() -> Seq<u8> {
    seq![116u8, 101u8, 109u8, 112u8]
}

/// The bytes of the key `humidity`.
pub open spec fn humidity_key() -> Seq<u8> {
    seq![104u8, 117u8, 109u8, 105u8, 100u8, 105u8, 116u8, 121u8]
}

/// The number token that denotes the value 0.0: a single `0`.
pub open spec fn zero_token() -> Seq<u8> {
    seq![48u8]
}

/// After a member's value ending at `v`: a comma continues the scan at the
/// next key, a closing brace ends the object there.
pub open spec fn spec_top_after(s: Seq<u8>, v: int, f: Fields) -> Option<(int, Fields)>
    decreases s.len() - v, 0int,
{
    if !(0 <= v && v <= s.len()) {
        None
    } else {
        let w = spec_ws(s, v);
        if !(v <= w && w <= s.len()) {
            None
        } else if w < s.len() && s[w] == 44 {
            let x = spec_ws(s, w + 1);
            if !(w + 1 <= x && x <= s.len()) {
                None
            } else {
                spec_top_items(s, x, f)
            }
        } else if w < s.len() && s[w] == 125 {
            Some((w + 1, f))
        } else {
            None
        }
    }
}

/// Scan of the top-level members, entered at the position of a key, with
/// the fields found so far. A known key must carry a value of its type —
/// a string for `device`, a number for `temp`, a number or `null` for
/// `humidity` — and may appear only once; an unknown key may carry any
/// value, which is skipped.
pub open spec fn spec_top_items(s: Seq<u8>, i: int, f: Fields) -> Option<(int, Fields)>
    decreases s.len() - i, 1int,
{
    if !(0 <= i && i < s.len() && s[i] == 34) {
        None
    } else {
        match spec_string(s, i + 1, Seq::<u8>::empty()) {
            None => None,
            Some((j, key)) => if !(i + 1 < j && j <= s.len()) {
                None
            } else {
                let k = spec_ws(s, j);
                if !(j <= k && k <= s.len()) {
                    None
                } else if k < s.len() && s[k] == 58 {
                    let m = spec_ws(s, k + 1);
                    if !(k + 1 <= m && m <= s.len()) {
                        None
                    } else if key == device_key() {
                        if f.device is Some {
                            None
                        } else if m < s.len() && s[m] == 34 {
                            match spec_string(s, m + 1, Seq::<u8>::empty()) {
                                None => None,
                                Some((v, val)) => if !(m + 1 < v && v <= s.len()) {
                                    None
                                } else {
                                    spec_top_after(s, v, Fields { device: Some(val), ..f })
                                },
                            }
                        } else {
                            None
                        }
                    } else if key == temp_key() {
                        if f.temp is Some {
                            None
                        } else {
                            match spec_number(s, m) {
                                None => None,
                                Some(v) => if !(m < v && v <= s.len()) {
                                    None
                                } else {
                                    spec_top_after(
                                        s,
                                        v,
                                        Fields { temp: Some(s.subrange(m, v)), ..f },
                                    )
                                },
                            }
                        }
                    } else if key == humidity_key() {
                        if f.humidity is Some {
                            None
                        } else if lit4(s, m, 110, 117, 108, 108) {  // null
                            spec_top_after(s, m + 4, Fields { humidity: Some(zero_token()), ..f })
                        } else {
                            match spec_number(s, m) {
                                None => None,
                                Some(v) => if !(m < v && v <= s.len()) {
                                    None
                                } else {
                                    spec_top_after(
                                        s,
                                        v,
                                        Fields { humidity: Some(s.subrange(m, v)), ..f },
                                    )
                                },
                            }
                        }
                    } else {
                        match spec_value(s, m) {
                            None => None,
                            Some(v) => if !(m < v && v <= s.len()) {
                                None
                            } else {
                                spec_top_after(s, v, f)
                            },
                        }
                    }
                } else {
                    None
                }
            },
        }
    }
}

/// The fields of a whole payload: whitespace, one object, whitespace, end of
/// input — or nothing, if the payload does not have that shape.
pub open spec fn spec_fields(s: Seq<u8>) -> Option<Fields> {
    let i = spec_ws(s, 0);
    if 0 <= i && i < s.len() && s[i] == 123 {
        let j = spec_ws(s, i + 1);
        if j < s.len() && s[j] == 125 {
            if spec_ws(s, j + 1) == s.len() {
                Some(empty_fields())
            } else {
                None
            }
        } else {
            match spec_top_items(s, j, empty_fields()) {
                None => None,
                Some((e, f)) => if spec_ws(s, e) == s.len() {
                    Some(f)
                } else {
                    None
                },
            }
        }
    } else {
        None
    }
}

/// The reading the found fields stand for: `device` and `temp` must be
/// present and `device` non-empty; a missing humidity is the token of 0.0.
pub open spec fn spec_assemble(f: Fields) -> Result<ReadingView, DecodeError> {
    match (f.device, f.temp) {
        (Some(d), Some(t)) => if d.len() == 0 {
            Err(DecodeError::Malformed)
        } else {
            Ok(
                ReadingView {
                    device: d,
                    temp: t,
                    humidity: match f.humidity {
                        Some(h) => h,
                        None => zero_token(),
                    },
                },
            )
        },
        _ => Err(DecodeError::Malformed),
    }
}

/// What `decode` returns on a payload: the reading its fields stand for, or
/// `Malformed`.
pub open spec fn spec_decode(s: Seq<u8>) -> Result<ReadingView, DecodeError> {
    match spec_fields(s) {
        None => Err(DecodeError::Malformed),
        Some(f) => spec_assemble(f),
    }
}

// ---------------------------------------------------------------------------
// Executable parser, proved to follow the grammar above exactly.
// ---------------------------------------------------------------------------

/// The bytes of `s` from `a` to `b`, as a fresh vector.
fn copy_range(s: &[u8], a: usize, b: usize) -> (r: Vec<u8>)
    requires
        a <= b && b <= s@.len(),
    ensures
        r@ == s@.subrange(a as int, b as int),
{
    let mut r: Vec<u8> = Vec::new();
    let mut j: usize = a;
    while j < b
        invariant
            a <= j && j <= b && b <= s@.len(),
            r@ == s@.subrange(a as int, j as int),
        decreases b - j,
    {
        r.push(s[j]);
        proof {
            assert(r@ =~= s@.subrange(a as int, j as int + 1));
        }
        j = j + 1;
    }
    r
}

/// The token of 0.0, as a fresh vector.
pub fn zero_token_exec() -> (r: Vec<u8>)
    ensures
        r@ == zero_token(),
{
    let mut r: Vec<u8> = Vec::new();
    r.push(48);
    proof {
        assert(r@ =~= zero_token());
    }
    r
}

fn skip_ws(s: &[u8], i: usize) -> (r: usize)
    requires
        i <= s@.len(),
    ensures
        r == spec_ws(s@, i as int),
        i <= r && r <= s@.len(),
{
    let mut j: usize = i;
    while j < s.len() && (s[j] == 32 || s[j] == 9 || s[j] == 10 || s[j] == 13)
        invariant
            i <= j && j <= s@.len(),
            spec_ws(s@, i as int) == spec_ws(s@, j as int),
        decreases s@.len() - j,
    {
        j = j + 1;
    }
    j
}

fn hex_digit(b: u8) -> (r: Option<u32>)
    ensures
        (match (r, hex_val(b)) {
            (Some(v), Some(sv)) => v == sv,
            (None, None) => true,
            _ => false,
        }),
{
    if 48 <= b && b <= 57 {
        Some((b - 48) as u32)
    } else if 97 <= b && b <= 102 {
        Some((b - 87) as u32)
    } else if 65 <= b && b <= 70 {
        Some((b - 55) as u32)
    } else {
        None
    }
}

fn parse_hex4(s: &[u8], i: usize) -> (r: Option<u32>)
    requires
        i <= s@.len(),
    ensures
        (match (r, spec_hex4(s@, i as int)) {
            (Some(v), Some(sv)) => v == sv,
            (None, None) => true,
            _ => false,
        }),
        r is Some ==> i + 4 <= s@.len(),
{
    if s.len() - i >= 4 {
        match (hex_digit(s[i]), hex_digit(s[i + 1]), hex_digit(s[i + 2]), hex_digit(s[i + 3])) {
            (Some(a), Some(b), Some(c), Some(d)) => Some(a * 4096 + b * 256 + c * 16 + d),
            _ => None,
        }
    } else {
        None
    }
}

fn utf8_enc_exec(c: u32) -> (r: Vec<u8>)
    requires
        c < 0x110000,
    ensures
        r@ == utf8_enc(c as int),
{
    let mut r: Vec<u8> = Vec::new();
    if c < 0x80 {
        r.push(c as u8);
    } else if c < 0x800 {
        r.push((0xC0 + c / 64) as u8);
        r.push((0x80 + c % 64) as u8);
    } else if c < 0x10000 {
        r.push((0xE0 + c / 4096) as u8);
        r.push((0x80 + (c / 64) % 64) as u8);
        r.push((0x80 + c % 64) as u8);
    } else {
        r.push((0xF0 + c / 262144) as u8);
        r.push((0x80 + (c / 4096) % 64) as u8);
        r.push((0x80 + (c / 64) % 64) as u8);
        r.push((0x80 + c % 64) as u8);
    }
    proof {
        assert(r@ =~= utf8_enc(c as int));
    }
    r
}

/// Decode a `\u` escape at `i` (`s[i]` is the backslash).
fn parse_u_escape(s: &[u8], i: usize) -> (r: Option<(usize, Vec<u8>)>)
    requires
        i + 1 < s@.len(),
        s@[i as int] == 92,
        s@[i as int + 1] == 117,
    ensures
        (match (r, spec_u_escape(s@, i as int)) {
            (Some((j, v)), Some((sj, sv))) => j == sj && v@ == sv && i < j && j <= s@.len(),
            (None, None) => true,
            _ => false,
        }),
{
    let n = s.len();
    match parse_hex4(s, i + 2) {
        None => None,
        Some(cp) => {
            if 0xD800 <= cp && cp <= 0xDBFF {
                if n - i >= 8 && s[i + 6] == 92 && s[i + 7] == 117 {
                    match parse_hex4(s, i + 8) {
                        None => None,
                        Some(lo) => {
                            if 0xDC00 <= lo && lo <= 0xDFFF {
                                let code = 0x10000 + (cp - 0xD800) * 0x400 + (lo - 0xDC00);
                                Some((i + 12, utf8_enc_exec(code)))
                            } else {
                                None
                            }
                        },
                    }
                } else {
                    None
                }
            } else if 0xDC00 <= cp && cp <= 0xDFFF {
                None
            } else {
                Some((i + 6, utf8_enc_exec(cp)))
            }
        },
    }
}

fn escape_exec(e: u8) -> (r: Option<u8>)
    ensures
        r == escape_byte(e),
{
    if e == 34 {
        Some(34)
    } else if e == 92 {
        Some(92)
    } else if e == 47 {
        Some(47)
    } else if e == 98 {
        Some(8)
    } else if e == 102 {
        Some(12)
    } else if e == 110 {
        Some(10)
    } else if e == 114 {
        Some(13)
    } else if e == 116 {
        Some(9)
    } else {
        None
    }
}

/// Parse a string body from `i` (just after the opening quote); on success
/// the position after the closing quote and the decoded bytes.
fn parse_string(s: &[u8], i: usize) -> (r: Option<(usize, Vec<u8>)>)
    requires
        i <= s@.len(),
    ensures
        (match (r, spec_string(s@, i as int, Seq::<u8>::empty())) {
            (Some((j, v)), Some((sj, sv))) => j == sj && v@ == sv && i < j && j <= s@.len(),
            (None, None) => true,
            _ => false,
        }),
{
    let mut j: usize = i;
    let mut acc: Vec<u8> = Vec::new();
    loop
        invariant
            i <= j && j <= s@.len(),
            spec_string(s@, i as int, Seq::<u8>::empty()) == spec_string(s@, j as int, acc@),
        decreases s@.len() - j,
    {
        if j >= s.len() {
            return None;
        }
        let b = s[j];
        if b == 34 {
            return Some((j + 1, acc));
        } else if b == 92 {
            if j + 1 < s.len() && s[j + 1] == 117 {
                match parse_u_escape(s, j) {
                    Some((next, mut bytes)) => {
                        acc.append(&mut bytes);
                        j = next;
                    },
                    None => {
                        return None;
                    },
                }
            } else if j + 1 < s.len() {
                match escape_exec(s[j + 1]) {
                    Some(x) => {
                        acc.push(x);
                        j = j + 2;
                    },
                    None => {
                        return None;
                    },
                }
            } else {
                return None;
            }
        } else if b < 32 {
            return None;
        } else {
            acc.push(b);
            j = j + 1;
        }
    }
}

fn skip_digits(s: &[u8], i: usize) -> (r: usize)
    requires
        i <= s@.len(),
    ensures
        r == spec_digits(s@, i as int),
        i <= r && r <= s@.len(),
{
    let mut j: usize = i;
    while j < s.len() && 48 <= s[j] && s[j] <= 57
        invariant
            i <= j && j <= s@.len(),
            spec_digits(s@, i as int) == spec_digits(s@, j as int),
        decreases s@.len() - j,
    {
        j = j + 1;
    }
    j
}

/// Recognise a number token starting at `i`; on success the position after
/// the token.
fn parse_number(s: &[u8], i: usize) -> (r: Option<usize>)
    requires
        i <= s@.len(),
    ensures
        (match (r, spec_number(s@, i as int)) {
            (Some(j), Some(sj)) => j == sj && i < j && j <= s@.len(),
            (None, None) => true,
            _ => false,
        }),
{
    let mut j: usize = i;
    if j < s.len() && s[j] == 45 {
        j = j + 1;
    }
    if j < s.len() && 48 <= s[j] && s[j] <= 57 {
        let k: usize = if s[j] == 48 {
            j + 1
        } else {
            proof {
                assert(spec_digits(s@, j as int) == spec_digits(s@, j as int + 1));
            }
            skip_digits(s, j + 1)
        };
        let k2: usize = if k < s.len() && s[k] == 46 {
            let d = skip_digits(s, k + 1);
            if d > k + 1 {
                d
            } else {
                return None;
            }
        } else {
            k
        };
        if k2 < s.len() && (s[k2] == 101 || s[k2] == 69) {
            let j2: usize = if k2 + 1 < s.len() && (s[k2 + 1] == 43 || s[k2 + 1] == 45) {
                k2 + 2
            } else {
                k2 + 1
            };
            let d = skip_digits(s, j2);
            if d > j2 {
                Some(d)
            } else {
                None
            }
        } else {
            Some(k2)
        }
    } else {
        None
    }
}

/// Skip one value starting at `i`; on success the position after it.
fn skip_value(s: &[u8], i: usize) -> (r: Option<usize>)
    requires
        i <= s@.len(),
    ensures
        (match (r, spec_value(s@, i as int)) {
            (Some(j), Some(sj)) => j == sj && i < j && j <= s@.len(),
            (None, None) => true,
            _ => false,
        }),
    decreases s@.len() - i, 0int,
{
    if i >= s.len() {
        return None;
    }
    let b = s[i];
    if b == 34 {
        match parse_string(s, i + 1) {
            Some((j, _v)) => Some(j),
            None => None,
        }
    } else if b == 123 {
        let j = skip_ws(s, i + 1);
        if j < s.len() && s[j] == 125 {
            Some(j + 1)
        } else {
            skip_obj_items(s, j)
        }
    } else if b == 91 {
        let j = skip_ws(s, i + 1);
        if j < s.len() && s[j] == 93 {
            Some(j + 1)
        } else {
            skip_arr_items(s, j)
        }
    } else if s.len() - i >= 4 && s[i] == 116 && s[i + 1] == 114 && s[i + 2] == 117 && s[i + 3]
        == 101 {
        Some(i + 4)
    } else if s.len() - i >= 4 && s[i] == 110 && s[i + 1] == 117 && s[i + 2] == 108 && s[i + 3]
        == 108 {
        Some(i + 4)
    } else if s.len() - i >= 5 && s[i] == 102 && s[i + 1] == 97 && s[i + 2] == 108 && s[i + 3]
        == 115 && s[i + 4] == 101 {
        Some(i + 5)
    } else {
        parse_number(s, i)
    }
}

/// Skip the items of an array, entered at the position of the first value.
fn skip_arr_items(s: &[u8], i: usize) -> (r: Option<usize>)
    requires
        i <= s@.len(),
    ensures
        (match (r, spec_arr_items(s@, i as int)) {
            (Some(j), Some(sj)) => j == sj && i < j && j <= s@.len(),
            (None, None) => true,
            _ => false,
        }),
    decreases s@.len() - i, 1int,
{
    match skip_value(s, i) {
        None => None,
        Some(j) => {
            let k = skip_ws(s, j);
            if k < s.len() && s[k] == 44 {
                let m = skip_ws(s, k + 1);
                skip_arr_items(s, m)
            } else if k < s.len() && s[k] == 93 {
                Some(k + 1)
            } else {
                None
            }
        },
    }
}

/// Skip the members of an object, entered at the position of a key.
fn skip_obj_items(s: &[u8], i: usize) -> (r: Option<usize>)
    requires
        i <= s@.len(),
    ensures
        (match (r, spec_obj_items(s@, i as int)) {
            (Some(j), Some(sj)) => j == sj && i < j && j <= s@.len(),
            (None, None) => true,
            _ => false,
        }),
    decreases s@.len() - i, 1int,
{
    if !(i < s.len() && s[i] == 34) {
        return None;
    }
    match parse_string(s, i + 1) {
        None => None,
        Some((j, _key)) => {
            let k = skip_ws(s, j);
            if k < s.len() && s[k] == 58 {
                let m = skip_ws(s, k + 1);
                match skip_value(s, m) {
                    None => None,
                    Some(v) => {
                        let w = skip_ws(s, v);
                        if w < s.len() && s[w] == 44 {
                            let x = skip_ws(s, w + 1);
                            skip_obj_items(s, x)
                        } else if w < s.len() && s[w] == 125 {
                            Some(w + 1)
                        } else {
                            None
                        }
                    },
                }
            } else {
                None
            }
        },
    }
}

/// Executable twin of `Fields`.
struct FieldsData {
    device: Option<Vec<u8>>,
    temp: Option<Vec<u8>>,
    humidity: Option<Vec<u8>>,
}

impl View for FieldsData {
    type V = Fields;

    closed spec fn view(&self) -> Fields {
        Fields {
            device: match self.device {
                Some(d) => Some(d@),
                None => None,
            },
            temp: match self.temp {
                Some(t) => Some(t@),
                None => None,
            },
            humidity: match self.humidity {
                Some(h) => Some(h@),
                None => None,
            },
        }
    }
}

fn is_device_key(k: &Vec<u8>) -> (r: bool)
    ensures
        r == (k@ == device_key()),
{
    let r = k.len() == 6 && k[0] == 100 && k[1] == 101 && k[2] == 118 && k[3] == 105 && k[4] == 99
        && k[5] == 101;
    proof {
        if r {
            assert(k@ =~= device_key());
        }
        if k@ == device_key() {
            assert(k@.len() == 6);
        }
    }
    r
}

fn is_temp_key(k: &Vec<u8>) -> (r: bool)
    ensures
        r == (k@ == temp_key()),
{
    let r = k.len() == 4 && k[0] == 116 && k[1] == 101 && k[2] == 109 && k[3] == 112;
    proof {
        if r {
            assert(k@ =~= temp_key());
        }
        if k@ == temp_key() {
            assert(k@.len() == 4);
        }
    }
    r
}

fn is_humidity_key(k: &Vec<u8>) -> (r: bool)
    ensures
        r == (k@ == humidity_key()),
{
    let r = k.len() == 8 && k[0] == 104 && k[1] == 117 && k[2] == 109 && k[3] == 105 && k[4] == 100
        && k[5] == 105 && k[6] == 116 && k[7] == 121;
    proof {
        if r {
            assert(k@ =~= humidity_key());
        }
        if k@ == humidity_key() {
            assert(k@.len() == 8);
        }
    }
    r
}

/// Continue after a member's value ending at `v`.
fn parse_top_after(s: &[u8], v: usize, f: FieldsData) -> (r: Option<(usize, FieldsData)>)
    requires
        v <= s@.len(),
    ensures
        (match (r, spec_top_after(s@, v as int, f@)) {
            (Some((j, g)), Some((sj, sg))) => j == sj && g@ == sg && v < j && j <= s@.len(),
            (None, None) => true,
            _ => false,
        }),
    decreases s@.len() - v, 0int,
{
    let w = skip_ws(s, v);
    if w < s.len() && s[w] == 44 {
        let x = skip_ws(s, w + 1);
        parse_top_items(s, x, f)
    } else if w < s.len() && s[w] == 125 {
        Some((w + 1, f))
    } else {
        None
    }
}

/// Scan the top-level members, entered at the position of a key.
fn parse_top_items(s: &[u8], i: usize, f: FieldsData) -> (r: Option<(usize, FieldsData)>)
    requires
        i <= s@.len(),
    ensures
        (match (r, spec_top_items(s@, i as int, f@)) {
            (Some((j, g)), Some((sj, sg))) => j == sj && g@ == sg && i < j && j <= s@.len(),
            (None, None) => true,
            _ => false,
        }),
    decreases s@.len() - i, 1int,
{
    if !(i < s.len() && s[i] == 34) {
        return None;
    }
    match parse_string(s, i + 1) {
        None => None,
        Some((j, key)) => {
            let k = skip_ws(s, j);
            if k < s.len() && s[k] == 58 {
                let m = skip_ws(s, k + 1);
                if is_device_key(&key) {
                    if f.device.is_some() {
                        return None;
                    }
                    if m < s.len() && s[m] == 34 {
                        match parse_string(s, m + 1) {
                            None => None,
                            Some((v, val)) => parse_top_after(
                                s,
                                v,
                                FieldsData { device: Some(val), ..f },
                            ),
                        }
                    } else {
                        None
                    }
                } else if is_temp_key(&key) {
                    if f.temp.is_some() {
                        return None;
                    }
                    match parse_number(s, m) {
                        None => None,
                        Some(v) => {
                            let tok = copy_range(s, m, v);
                            parse_top_after(s, v, FieldsData { temp: Some(tok), ..f })
                        },
                    }
                } else if is_humidity_key(&key) {
                    if f.humidity.is_some() {
                        return None;
                    }
                    if s.len() - m >= 4 && s[m] == 110 && s[m + 1] == 117 && s[m + 2] == 108 && s[m
                        + 3] == 108 {
                        let z = zero_token_exec();
                        parse_top_after(s, m + 4, FieldsData { humidity: Some(z), ..f })
                    } else {
                        match parse_number(s, m) {
                            None => None,
                            Some(v) => {
                                let tok = copy_range(s, m, v);
                                parse_top_after(s, v, FieldsData { humidity: Some(tok), ..f })
                            },
                        }
                    }
                } else {
                    match skip_value(s, m) {
                        None => None,
                        Some(v) => parse_top_after(s, v, f),
                    }
                }
            } else {
                None
            }
        },
    }
}

fn assemble(f: FieldsData) -> (r: Result<SensorData, DecodeError>)
    ensures
        (match (r, spec_assemble(f@)) {
            (Ok(d), Ok(v)) => d@ == v,
            (Err(e), Err(se)) => e == se,
            _ => false,
        }),
{
    match (f.device, f.temp) {
        (Some(d), Some(t)) => if d.len() == 0 {
            Err(DecodeError::Malformed)
        } else {
            Ok(
                SensorData {
                    device: d,
                    temp: t,
                    humidity: match f.humidity {
                        Some(h) => h,
                        None => zero_token_exec(),
                    },
                },
            )
        },
        _ => Err(DecodeError::Malformed),
    }
}

/// Decode a raw payload into a validated reading.
///
/// A pure function of the payload: it returns exactly what the grammar
/// (`spec_decode`) says — the reading carried by a well-formed payload whose
/// `device` is a non-empty string and whose `temp` is a number, with the
/// humidity defaulting to 0.0 when absent or `null`; and `Malformed` on
/// every other payload.
pub fn decode(payload: &[u8]) -> (r: Result<SensorData, DecodeError>)
    ensures
        (match (r, spec_decode(payload@)) {
            (Ok(d), Ok(v)) => d@ == v,
            (Err(e), Err(se)) => e == se,
            _ => false,
        }),
{
    let i = skip_ws(payload, 0);
    if i < payload.len() && payload[i] == 123 {
        let j = skip_ws(payload, i + 1);
        if j < payload.len() && payload[j] == 125 {
            let t = skip_ws(payload, j + 1);
            if t == payload.len() {
                assemble(FieldsData { device: None, temp: None, humidity: None })
            } else {
                Err(DecodeError::Malformed)
            }
        } else {
            match parse_top_items(payload, j, FieldsData { device: None, temp: None, humidity: None }) {
                None => Err(DecodeError::Malformed),
                Some((e, f)) => {
                    let t = skip_ws(payload, e);
                    if t == payload.len() {
                        assemble(f)
                    } else {
                        Err(DecodeError::Malformed)
                    }
                },
            }
        }
    } else {
        Err(DecodeError::Malformed)
    }
}

// ---------------------------------------------------------------------------
// Laws of the decoder.
// ---------------------------------------------------------------------------

/// On every payload whose fields include a non-empty `device` and a `temp`,
/// the decoder yields a reading; its humidity is the exact supplied token
/// when the payload carried one, and the token of 0.0 when the field was
/// absent or `null`.
pub proof fn lemma_decode_humidity_default(s: Seq<u8>)
    requires
        spec_fields(s) matches Some(f) && f.device matches Some(d) && d.len() > 0 && f.temp
            is Some,
    ensures
        spec_decode(s) matches Ok(v) && v.humidity == (match spec_fields(s).unwrap().humidity {
            Some(h) => h,
            None => zero_token(),
        }),
{
}

/// On every payload whose fields lack `device` or `temp`, or whose `device`
/// is empty, and on every payload outside the grammar (a wrong-typed or
/// duplicated field included: such a payload has no fields at all), the
/// decoder yields `Malformed` — never a partially constructed reading.
pub proof fn lemma_decode_malformed(s: Seq<u8>)
    requires
        (match spec_fields(s) {
            Some(f) => f.device is None || f.temp is None || (f.device matches Some(d) && d.len()
                == 0),
            None => true,
        }),
    ensures
        spec_decode(s) == Err::<ReadingView, DecodeError>(DecodeError::Malformed),
{
}

} // verus!
