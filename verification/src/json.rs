//! A parser for the update payload's wire format: a JSON object whose
//! required keys `product` and `version` hold strings, with any extra keys
//! ignored.
//!
//! The grammar is stated by the `spec_` functions: objects, arrays, numbers,
//! the three literals, and full JSON strings — unescaped bytes from 0x20 up
//! forming well-formed UTF-8 scalars, the single-character escapes, and
//! `\uXXXX` escapes with surrogate pairs decoded. A string's value is its
//! decoded character sequence. The executable functions return exactly what
//! the specification functions describe, carrying string contents as UTF-8
//! bytes.
//!
//! In the recursive specification functions, every recursive call is guarded
//! by a check that the position advanced, which keeps the recursion
//! well-founded; the guards never fail on positions an executable caller
//! reaches, as their contracts show.

use vstd::prelude::*;
use vstd::utf8::decode_first_scalar;
use vstd::utf8::decode_utf8;
use vstd::utf8::encode_scalar;
use vstd::utf8::encode_utf8;
use vstd::utf8::is_scalar;
use vstd::utf8::length_of_first_scalar;
use vstd::utf8::valid_first_scalar;
use vstd::utf8::valid_utf8;

verus! {

broadcast use vstd::utf8::encode_utf8_valid_utf8, vstd::utf8::encode_utf8_decode_utf8, vstd::utf8::decode_utf8_encode_utf8, vstd::utf8::char_is_scalar, vstd::utf8::char_u32_cast;

/// JSON insignificant whitespace: space, tab, line feed, carriage return.
pub open spec fn is_ws(b: u8) -> bool {
    b == 0x20 || b == 0x09 || b == 0x0a || b == 0x0d
}

/// An ASCII decimal digit.
pub open spec fn is_digit(b: u8) -> bool {
    0x30 <= b <= 0x39
}

/// An ASCII string-content byte that stands for itself: anything from the
/// space up to 0x7f, except the quote and the backslash.
pub open spec fn is_plain_string_byte(b: u8) -> bool {
    0x20 <= b <= 0x7f && b != 0x22 && b != 0x5c
}

/// What the character after a backslash escape decodes to, if it is one of
/// the single-character escapes.
pub open spec fn spec_unescape(b: u8) -> Option<u8> {
    if b == 0x22 {
        Some(0x22)
    } else if b == 0x5c {
        Some(0x5c)
    } else if b == 0x2f {
        Some(0x2f)
    } else if b == 0x62 {
        Some(0x08)
    } else if b == 0x66 {
        Some(0x0c)
    } else if b == 0x6e {
        Some(0x0a)
    } else if b == 0x72 {
        Some(0x0d)
    } else if b == 0x74 {
        Some(0x09)
    } else {
        None
    }
}

/// The value of an ASCII hexadecimal digit.
pub open spec fn spec_hex_digit(b: u8) -> Option<u32> {
    if 0x30 <= b <= 0x39 {
        Some((b - 0x30) as u32)
    } else if 0x61 <= b <= 0x66 {
        Some((b - 0x61 + 10) as u32)
    } else if 0x41 <= b <= 0x46 {
        Some((b - 0x41 + 10) as u32)
    } else {
        None
    }
}

/// The value of the four hexadecimal digits at `i`, as in a `\u` escape.
pub open spec fn spec_hex4(s: Seq<u8>, i: int) -> Option<u32> {
    if 0 <= i && i + 4 <= s.len() {
        match (spec_hex_digit(s[i]), spec_hex_digit(s[i + 1]), spec_hex_digit(s[i + 2]), spec_hex_digit(
            s[i + 3],
        )) {
            (Some(h0), Some(h1), Some(h2), Some(h3)) => Some(
                (h0 * 0x1000 + h1 * 0x100 + h2 * 0x10 + h3) as u32,
            ),
            _ => None,
        }
    } else {
        None
    }
}

/// The first position at or after `i` that does not hold whitespace.
pub open spec fn spec_skip_ws(s: Seq<u8>, i: int) -> int
    decreases s.len() - i,
{
    if 0 <= i < s.len() && is_ws(s[i]) {
        spec_skip_ws(s, i + 1)
    } else {
        i
    }
}

/// The first position at or after `i` that does not hold a digit.
pub open spec fn spec_skip_digits(s: Seq<u8>, i: int) -> int
    decreases s.len() - i,
{
    if 0 <= i < s.len() && is_digit(s[i]) {
        spec_skip_digits(s, i + 1)
    } else {
        i
    }
}

/// String contents from `i` (just inside the opening quote) to the closing
/// quote: the characters decoded so far are threaded through `acc`. One step
/// consumes a plain ASCII byte, a raw multi-byte UTF-8 scalar, a
/// single-character escape, a `\uXXXX` escape, or a surrogate pair of two
/// such escapes. Yields the decoded characters and the position after the
/// closing quote.
pub open spec fn spec_string_rest(s: Seq<u8>, i: int, acc: Seq<char>) -> Option<(Seq<char>, int)>
    decreases s.len() - i,
{
    if i < 0 || i >= s.len() {
        None
    } else if s[i] == 0x22 {
        Some((acc, i + 1))
    } else if s[i] == 0x5c {
        if i + 1 < s.len() {
            if s[i + 1] == 0x75 {
                match spec_hex4(s, i + 2) {
                    None => None,
                    Some(c1) => {
                        if 0xd800 <= c1 <= 0xdbff {
                            // a leading surrogate: only valid as a pair
                            if i + 12 <= s.len() && s[i + 6] == 0x5c && s[i + 7] == 0x75 {
                                match spec_hex4(s, i + 8) {
                                    None => None,
                                    Some(c2) => {
                                        if 0xdc00 <= c2 <= 0xdfff {
                                            let c = ((c1 - 0xd800) * 0x400 + (c2 - 0xdc00)
                                                + 0x10000) as u32;
                                            spec_string_rest(s, i + 12, acc.push(c as char))
                                        } else {
                                            None
                                        }
                                    },
                                }
                            } else {
                                None
                            }
                        } else if 0xdc00 <= c1 <= 0xdfff {
                            // a lone trailing surrogate is not a scalar
                            None
                        } else {
                            spec_string_rest(s, i + 6, acc.push(c1 as char))
                        }
                    },
                }
            } else {
                match spec_unescape(s[i + 1]) {
                    Some(b) => spec_string_rest(s, i + 2, acc.push(b as char)),
                    None => None,
                }
            }
        } else {
            None
        }
    } else if is_plain_string_byte(s[i]) {
        spec_string_rest(s, i + 1, acc.push(s[i] as char))
    } else if 0x80 <= s[i] {
        let rest = s.subrange(i, s.len() as int);
        if valid_first_scalar(rest) {
            let n = length_of_first_scalar(rest);
            if 0 < n && i + n <= s.len() {
                spec_string_rest(s, i + n, acc.push(decode_first_scalar(rest) as char))
            } else {
                None
            }
        } else {
            None
        }
    } else {
        None
    }
}

/// A JSON string starting at `i`: its decoded characters and the position
/// after the closing quote.
pub open spec fn spec_parse_string(s: Seq<u8>, i: int) -> Option<(Seq<char>, int)> {
    if 0 <= i < s.len() && s[i] == 0x22 {
        spec_string_rest(s, i + 1, Seq::empty())
    } else {
        None
    }
}

/// A JSON number starting at `i`: the position after it.
pub open spec fn spec_skip_number(s: Seq<u8>, i: int) -> Option<int> {
    let i1 = if 0 <= i < s.len() && s[i] == 0x2d {
        i + 1
    } else {
        i
    };
    if !(0 <= i1 < s.len() && is_digit(s[i1])) {
        None
    } else {
        let i2 = if s[i1] == 0x30 {
            i1 + 1
        } else {
            spec_skip_digits(s, i1)
        };
        let frac = if i2 < s.len() && s[i2] == 0x2e {
            let d = spec_skip_digits(s, i2 + 1);
            if d == i2 + 1 {
                None
            } else {
                Some(d)
            }
        } else {
            Some(i2)
        };
        match frac {
            None => None,
            Some(i3) => {
                if i3 < s.len() && (s[i3] == 0x65 || s[i3] == 0x45) {
                    let i4 = if i3 + 1 < s.len() && (s[i3 + 1] == 0x2b || s[i3 + 1] == 0x2d) {
                        i3 + 2
                    } else {
                        i3 + 1
                    };
                    let d = spec_skip_digits(s, i4);
                    if d == i4 {
                        None
                    } else {
                        Some(d)
                    }
                } else {
                    Some(i3)
                }
            },
        }
    }
}

/// Any JSON value starting at `i`: the position after it.
pub open spec fn spec_skip_value(s: Seq<u8>, i: int) -> Option<int>
    decreases s.len() - i, 0int,
{
    if i < 0 || i >= s.len() {
        None
    } else if s[i] == 0x22 {
        match spec_parse_string(s, i) {
            Some((_c, j)) => Some(j),
            None => None,
        }
    } else if s[i] == 0x7b {
        let j = spec_skip_ws(s, i + 1);
        if i < j && j <= s.len() {
            spec_skip_members(s, j, true)
        } else {
            None
        }
    } else if s[i] == 0x5b {
        let j = spec_skip_ws(s, i + 1);
        if i < j && j <= s.len() {
            spec_skip_items(s, j, true)
        } else {
            None
        }
    } else if s[i] == 0x74 {
        if s.len() - i >= 4 && s[i + 1] == 0x72 && s[i + 2] == 0x75 && s[i + 3] == 0x65 {
            Some(i + 4)
        } else {
            None
        }
    } else if s[i] == 0x66 {
        if s.len() - i >= 5 && s[i + 1] == 0x61 && s[i + 2] == 0x6c && s[i + 3] == 0x73 && s[i + 4]
            == 0x65 {
            Some(i + 5)
        } else {
            None
        }
    } else if s[i] == 0x6e {
        if s.len() - i >= 4 && s[i + 1] == 0x75 && s[i + 2] == 0x6c && s[i + 3] == 0x6c {
            Some(i + 4)
        } else {
            None
        }
    } else if s[i] == 0x2d || is_digit(s[i]) {
        spec_skip_number(s, i)
    } else {
        None
    }
}

/// The members of a JSON object from `i` (after `{` or after a separating
/// comma, whitespace already skipped) to the closing brace: the position
/// after the brace. A close is allowed at `i` only directly after the `{`.
pub open spec fn spec_skip_members(s: Seq<u8>, i: int, allow_close: bool) -> Option<int>
    decreases s.len() - i, 1int,
{
    if i < 0 || i >= s.len() {
        None
    } else if allow_close && s[i] == 0x7d {
        Some(i + 1)
    } else {
        match spec_parse_string(s, i) {
            None => None,
            Some((_key, j1)) => {
                let j2 = spec_skip_ws(s, j1);
                if j2 < s.len() && s[j2] == 0x3a {
                    let j3 = spec_skip_ws(s, j2 + 1);
                    if i < j3 && j3 <= s.len() {
                        match spec_skip_value(s, j3) {
                            None => None,
                            Some(j4) => {
                                let j5 = spec_skip_ws(s, j4);
                                if j5 < s.len() && s[j5] == 0x2c {
                                    let j6 = spec_skip_ws(s, j5 + 1);
                                    if i < j6 && j6 <= s.len() {
                                        spec_skip_members(s, j6, false)
                                    } else {
                                        None
                                    }
                                } else if j5 < s.len() && s[j5] == 0x7d {
                                    Some(j5 + 1)
                                } else {
                                    None
                                }
                            },
                        }
                    } else {
                        None
                    }
                } else {
                    None
                }
            },
        }
    }
}

/// The items of a JSON array from `i` (after `[` or after a separating
/// comma, whitespace already skipped) to the closing bracket: the position
/// after the bracket. A close is allowed at `i` only directly after the `[`.
pub open spec fn spec_skip_items(s: Seq<u8>, i: int, allow_close: bool) -> Option<int>
    decreases s.len() - i, 1int,
{
    if i < 0 || i >= s.len() {
        None
    } else if allow_close && s[i] == 0x5d {
        Some(i + 1)
    } else {
        match spec_skip_value(s, i) {
            None => None,
            Some(j) => {
                let j2 = spec_skip_ws(s, j);
                if j2 < s.len() && s[j2] == 0x2c {
                    let j3 = spec_skip_ws(s, j2 + 1);
                    if i < j3 && j3 <= s.len() {
                        spec_skip_items(s, j3, false)
                    } else {
                        None
                    }
                } else if j2 < s.len() && s[j2] == 0x5d {
                    Some(j2 + 1)
                } else {
                    None
                }
            },
        }
    }
}

/// The required key `product`.
pub open spec fn product_key() -> Seq<char> {
    "product"@
}

/// The required key `version`.
pub open spec fn version_key() -> Seq<char> {
    "version"@
}

/// The members of the top-level object, tracking the value of the keys
/// `product` (`p`) and `version` (`v`). Both keys must hold strings and
/// appear at most once; any other member's value may be any JSON value and
/// is skipped. Yields the tracked values and the position after the closing
/// brace.
pub open spec fn spec_parse_members(
    s: Seq<u8>,
    i: int,
    allow_close: bool,
    p: Option<Seq<char>>,
    v: Option<Seq<char>>,
) -> Option<((Option<Seq<char>>, Option<Seq<char>>), int)>
    decreases s.len() - i,
{
    if i < 0 || i >= s.len() {
        None
    } else if allow_close && s[i] == 0x7d {
        Some(((p, v), i + 1))
    } else {
        match spec_parse_string(s, i) {
            None => None,
            Some((key, j1)) => {
                let j2 = spec_skip_ws(s, j1);
                if j2 < s.len() && s[j2] == 0x3a {
                    let j3 = spec_skip_ws(s, j2 + 1);
                    if i < j3 && j3 <= s.len() {
                        let stepped = if key == product_key() {
                            match (p, spec_parse_string(s, j3)) {
                                (None, Some((val, j4))) => Some((Some(val), v, j4)),
                                _ => None,
                            }
                        } else if key == version_key() {
                            match (v, spec_parse_string(s, j3)) {
                                (None, Some((val, j4))) => Some((p, Some(val), j4)),
                                _ => None,
                            }
                        } else {
                            match spec_skip_value(s, j3) {
                                Some(j4) => Some((p, v, j4)),
                                None => None,
                            }
                        };
                        match stepped {
                            None => None,
                            Some((p2, v2, j4)) => {
                                let j5 = spec_skip_ws(s, j4);
                                if j5 < s.len() && s[j5] == 0x2c {
                                    let j6 = spec_skip_ws(s, j5 + 1);
                                    if i < j6 && j6 <= s.len() {
                                        spec_parse_members(s, j6, false, p2, v2)
                                    } else {
                                        None
                                    }
                                } else if j5 < s.len() && s[j5] == 0x7d {
                                    Some(((p2, v2), j5 + 1))
                                } else {
                                    None
                                }
                            },
                        }
                    } else {
                        None
                    }
                } else {
                    None
                }
            },
        }
    }
}

/// A complete update payload: one JSON object, surrounded only by
/// whitespace, holding strings under the keys `product` and `version`.
/// Yields the decoded characters of those two values.
pub open spec fn spec_parse_package(s: Seq<u8>) -> Option<(Seq<char>, Seq<char>)> {
    let i = spec_skip_ws(s, 0);
    if 0 <= i < s.len() && s[i] == 0x7b {
        let j = spec_skip_ws(s, i + 1);
        match spec_parse_members(s, j, true, None, None) {
            None => None,
            Some(((p, v), k)) => {
                if spec_skip_ws(s, k) == s.len() {
                    match (p, v) {
                        (Some(pc), Some(vc)) => Some((pc, vc)),
                        _ => None,
                    }
                } else {
                    None
                }
            },
        }
    } else {
        None
    }
}

/// The tracked field, if present, holds well-formed UTF-8.
pub open spec fn opt_valid_utf8(o: Option<Vec<u8>>) -> bool {
    match o {
        Some(b) => valid_utf8(b@),
        None => true,
    }
}

/// The characters an optional UTF-8 byte vector decodes to.
pub open spec fn opt_decoded(o: Option<Vec<u8>>) -> Option<Seq<char>> {
    match o {
        Some(b) => Some(decode_utf8(b@)),
        None => None,
    }
}

/// Appending one character appends its scalar's encoding.
proof fn lemma_encode_utf8_push(cs: Seq<char>, c: char)
    ensures
        encode_utf8(cs.push(c)) == encode_utf8(cs) + encode_scalar(c as u32),
    decreases cs.len(),
{
    let p = cs.push(c);
    if cs.len() == 0 {
        assert(p[0] == c);
        assert(p.drop_first() =~= Seq::<char>::empty());
        assert(encode_utf8(p.drop_first()) =~= Seq::<u8>::empty());
        assert(encode_utf8(cs) =~= Seq::<u8>::empty());
        assert(encode_utf8(p) =~= encode_utf8(cs) + encode_scalar(c as u32));
    } else {
        lemma_encode_utf8_push(cs.drop_first(), c);
        assert(p[0] == cs[0]);
        assert(p.drop_first() =~= cs.drop_first().push(c));
        assert(encode_utf8(p) == encode_scalar(cs[0] as u32) + encode_utf8(
            cs.drop_first().push(c),
        ));
        assert(encode_utf8(cs.drop_first().push(c)) == encode_utf8(cs.drop_first())
            + encode_scalar(c as u32));
        assert(encode_utf8(cs) == encode_scalar(cs[0] as u32) + encode_utf8(cs.drop_first()));
        assert(encode_utf8(p) =~= encode_utf8(cs) + encode_scalar(c as u32));
    }
}

/// Decode the raw UTF-8 scalar whose leading byte stands at `j`: its width
/// and value, or `None` where the bytes at `j` are not a well-formed
/// encoding of a scalar.
fn decode_raw_scalar(s: &[u8], j: usize) -> (r: Option<(usize, u32)>)
    requires
        j < s@.len(),
        0x80 <= s@[j as int],
    ensures
        ({
            let rest = s@.subrange(j as int, s@.len() as int);
            match r {
                Some((n, c)) => valid_first_scalar(rest) && n as int == length_of_first_scalar(
                    rest,
                ) && c == decode_first_scalar(rest) && is_scalar(c) && 0 < n && j + n <= s@.len(),
                None => !valid_first_scalar(rest),
            }
        }),
{
    let ghost rest = s@.subrange(j as int, s@.len() as int);
    proof {
        assert(rest.len() == s@.len() - j);
        assert(forall|k: int| 0 <= k < rest.len() ==> rest[k] == s@[j + k]);
    }
    let b = s[j];
    let rem = s.len() - j;
    if 0xc0 <= b && b <= 0xdf {
        if rem < 2 {
            return None;
        }
        let b1 = s[j + 1];
        if !(0x80 <= b1 && b1 <= 0xbf) {
            return None;
        }
        let c = (((b & 0x1f) as u32) << 6u32) | ((b1 & 0x3f) as u32);
        proof {
            assert(c <= 0x7ff) by (bit_vector)
                requires
                    c == (((b & 0x1f) as u32) << 6u32) | ((b1 & 0x3f) as u32),
            ;
        }
        if c >= 0x80 {
            Some((2, c))
        } else {
            None
        }
    } else if 0xe0 <= b && b <= 0xef {
        if rem < 3 {
            return None;
        }
        let b1 = s[j + 1];
        let b2 = s[j + 2];
        if !(0x80 <= b1 && b1 <= 0xbf && 0x80 <= b2 && b2 <= 0xbf) {
            return None;
        }
        let c = (((b & 0x0f) as u32) << 12u32) | (((b1 & 0x3f) as u32) << 6u32) | ((b2
            & 0x3f) as u32);
        proof {
            assert(c <= 0xffff) by (bit_vector)
                requires
                    c == (((b & 0x0f) as u32) << 12u32) | (((b1 & 0x3f) as u32) << 6u32) | ((b2
                        & 0x3f) as u32),
            ;
        }
        if c >= 0x800 && !(0xd800 <= c && c <= 0xdfff) {
            Some((3, c))
        } else {
            None
        }
    } else if 0xf0 <= b && b <= 0xf7 {
        if rem < 4 {
            return None;
        }
        let b1 = s[j + 1];
        let b2 = s[j + 2];
        let b3 = s[j + 3];
        if !(0x80 <= b1 && b1 <= 0xbf && 0x80 <= b2 && b2 <= 0xbf && 0x80 <= b3 && b3 <= 0xbf) {
            return None;
        }
        let c = (((b & 0x07) as u32) << 18u32) | (((b1 & 0x3f) as u32) << 12u32) | (((b2
            & 0x3f) as u32) << 6u32) | ((b3 & 0x3f) as u32);
        if 0x10000 <= c && c <= 0x10ffff {
            Some((4, c))
        } else {
            None
        }
    } else {
        // a lone continuation byte, or a byte no encoding starts with
        None
    }
}

fn byte_is_ws(b: u8) -> (r: bool)
    ensures
        r == is_ws(b),
{
    b == 0x20 || b == 0x09 || b == 0x0a || b == 0x0d
}

fn byte_is_digit(b: u8) -> (r: bool)
    ensures
        r == is_digit(b),
{
    0x30 <= b && b <= 0x39
}

fn byte_is_plain(b: u8) -> (r: bool)
    ensures
        r == is_plain_string_byte(b),
{
    0x20 <= b && b <= 0x7f && b != 0x22 && b != 0x5c
}

fn unescape(b: u8) -> (r: Option<u8>)
    ensures
        r == spec_unescape(b),
{
    if b == 0x22 {
        Some(0x22)
    } else if b == 0x5c {
        Some(0x5c)
    } else if b == 0x2f {
        Some(0x2f)
    } else if b == 0x62 {
        Some(0x08)
    } else if b == 0x66 {
        Some(0x0c)
    } else if b == 0x6e {
        Some(0x0a)
    } else if b == 0x72 {
        Some(0x0d)
    } else if b == 0x74 {
        Some(0x09)
    } else {
        None
    }
}

fn hex_digit(b: u8) -> (r: Option<u32>)
    ensures
        r == spec_hex_digit(b),
{
    if 0x30 <= b && b <= 0x39 {
        Some((b - 0x30) as u32)
    } else if 0x61 <= b && b <= 0x66 {
        Some((b - 0x61 + 10) as u32)
    } else if 0x41 <= b && b <= 0x46 {
        Some((b - 0x41 + 10) as u32)
    } else {
        None
    }
}

fn hex4(s: &[u8], i: usize) -> (r: Option<u32>)
    ensures
        r == spec_hex4(s@, i as int),
        r matches Some(c) ==> i + 4 <= s@.len() && c <= 0xffff,
{
    if s.len() < 4 || i > s.len() - 4 {
        return None;
    }
    let h0 = match hex_digit(s[i]) {
        Some(h) => h,
        None => {
            return None;
        },
    };
    let h1 = match hex_digit(s[i + 1]) {
        Some(h) => h,
        None => {
            return None;
        },
    };
    let h2 = match hex_digit(s[i + 2]) {
        Some(h) => h,
        None => {
            return None;
        },
    };
    let h3 = match hex_digit(s[i + 3]) {
        Some(h) => h,
        None => {
            return None;
        },
    };
    Some(h0 * 0x1000 + h1 * 0x100 + h2 * 0x10 + h3)
}

/// Append the UTF-8 encoding of the scalar `c`.
fn push_utf8(acc: &mut Vec<u8>, c: u32)
    requires
        is_scalar(c),
    ensures
        final(acc)@ == old(acc)@ + encode_scalar(c),
{
    if c <= 0x7f {
        acc.push((c & 0x7f) as u8);
    } else if c <= 0x7ff {
        acc.push(0xc0 | ((c >> 6u32) & 0x1f) as u8);
        acc.push(0x80 | (c & 0x3f) as u8);
    } else if c <= 0xffff {
        acc.push(0xe0 | ((c >> 12u32) & 0x0f) as u8);
        acc.push(0x80 | ((c >> 6u32) & 0x3f) as u8);
        acc.push(0x80 | (c & 0x3f) as u8);
    } else {
        acc.push(0xf0 | ((c >> 18u32) & 0x7) as u8);
        acc.push(0x80 | ((c >> 12u32) & 0x3f) as u8);
        acc.push(0x80 | ((c >> 6u32) & 0x3f) as u8);
        acc.push(0x80 | (c & 0x3f) as u8);
    }
    proof {
        assert(final(acc)@ =~= old(acc)@ + encode_scalar(c));
    }
}

fn skip_ws(s: &[u8], i: usize) -> (r: usize)
    ensures
        r as int == spec_skip_ws(s@, i as int),
        i <= r,
        i <= s@.len() ==> r <= s@.len(),
{
    let mut j = i;
    while j < s.len() && byte_is_ws(s[j])
        invariant
            i <= j,
            i <= s@.len() ==> j <= s@.len(),
            spec_skip_ws(s@, i as int) == spec_skip_ws(s@, j as int),
        decreases s@.len() - j,
    {
        j = j + 1;
    }
    j
}

fn skip_digits(s: &[u8], i: usize) -> (r: usize)
    ensures
        r as int == spec_skip_digits(s@, i as int),
        i <= r,
        i <= s@.len() ==> r <= s@.len(),
        (i as int) < s@.len() && is_digit(s@[i as int]) ==> i < r,
{
    let mut j = i;
    while j < s.len() && byte_is_digit(s[j])
        invariant
            i <= j,
            i <= s@.len() ==> j <= s@.len(),
            spec_skip_digits(s@, i as int) == spec_skip_digits(s@, j as int),
        decreases s@.len() - j,
    {
        j = j + 1;
    }
    j
}

fn parse_string(s: &[u8], i: usize) -> (r: Option<(Vec<u8>, usize)>)
    ensures
        match r {
            Some((c, j)) => spec_parse_string(s@, i as int) matches Some((cs, jj)) && jj == j as int
                && c@ == encode_utf8(cs) && valid_utf8(c@) && i < j <= s@.len(),
            None => spec_parse_string(s@, i as int) is None,
        },
{
    if i >= s.len() {
        return None;
    }
    if s[i] != 0x22 {
        return None;
    }
    let mut acc: Vec<u8> = Vec::new();
    let ghost mut cs: Seq<char> = Seq::empty();
    let mut j = i + 1;
    loop
        invariant
            i + 1 <= j <= s@.len(),
            acc@ == encode_utf8(cs),
            spec_parse_string(s@, i as int) == spec_string_rest(s@, j as int, cs),
        decreases s@.len() - j,
    {
        if j >= s.len() {
            return None;
        }
        let b = s[j];
        if b == 0x22 {
            return Some((acc, j + 1));
        } else if b == 0x5c {
            if j + 1 >= s.len() {
                return None;
            }
            if s[j + 1] == 0x75 {
                let c1 = match hex4(s, j + 2) {
                    Some(c) => c,
                    None => {
                        return None;
                    },
                };
                if 0xd800 <= c1 && c1 <= 0xdbff {
                    if !(s.len() - j >= 12 && s[j + 6] == 0x5c && s[j + 7] == 0x75) {
                        return None;
                    }
                    let c2 = match hex4(s, j + 8) {
                        Some(c) => c,
                        None => {
                            return None;
                        },
                    };
                    if !(0xdc00 <= c2 && c2 <= 0xdfff) {
                        return None;
                    }
                    let c = (c1 - 0xd800) * 0x400 + (c2 - 0xdc00) + 0x10000;
                    push_utf8(&mut acc, c);
                    proof {
                        lemma_encode_utf8_push(cs, c as char);
                        cs = cs.push(c as char);
                    }
                    j = j + 12;
                } else if 0xdc00 <= c1 && c1 <= 0xdfff {
                    return None;
                } else {
                    push_utf8(&mut acc, c1);
                    proof {
                        lemma_encode_utf8_push(cs, c1 as char);
                        cs = cs.push(c1 as char);
                    }
                    j = j + 6;
                }
            } else {
                match unescape(s[j + 1]) {
                    Some(d) => {
                        push_utf8(&mut acc, d as u32);
                        proof {
                            lemma_encode_utf8_push(cs, d as char);
                            cs = cs.push(d as char);
                        }
                        j = j + 2;
                    },
                    None => {
                        return None;
                    },
                }
            }
        } else if byte_is_plain(b) {
            push_utf8(&mut acc, b as u32);
            proof {
                lemma_encode_utf8_push(cs, b as char);
                cs = cs.push(b as char);
            }
            j = j + 1;
        } else if b >= 0x80 {
            match decode_raw_scalar(s, j) {
                Some((n, c)) => {
                    push_utf8(&mut acc, c);
                    proof {
                        lemma_encode_utf8_push(cs, c as char);
                        cs = cs.push(c as char);
                    }
                    j = j + n;
                },
                None => {
                    return None;
                },
            }
        } else {
            return None;
        }
    }
}

fn skip_number(s: &[u8], i: usize) -> (r: Option<usize>)
    ensures
        match r {
            Some(j) => spec_skip_number(s@, i as int) == Some(j as int) && i < j && j <= s@.len(),
            None => spec_skip_number(s@, i as int) is None,
        },
{
    let i1 = if i < s.len() && s[i] == 0x2d {
        i + 1
    } else {
        i
    };
    if !(i1 < s.len() && byte_is_digit(s[i1])) {
        return None;
    }
    let i2 = if s[i1] == 0x30 {
        i1 + 1
    } else {
        skip_digits(s, i1)
    };
    let i3 = if i2 < s.len() && s[i2] == 0x2e {
        let d = skip_digits(s, i2 + 1);
        if d == i2 + 1 {
            return None;
        }
        d
    } else {
        i2
    };
    if i3 < s.len() && (s[i3] == 0x65 || s[i3] == 0x45) {
        let i4 = if i3 + 1 < s.len() && (s[i3 + 1] == 0x2b || s[i3 + 1] == 0x2d) {
            i3 + 2
        } else {
            i3 + 1
        };
        let d = skip_digits(s, i4);
        if d == i4 {
            return None;
        }
        Some(d)
    } else {
        Some(i3)
    }
}

fn skip_value(s: &[u8], i: usize) -> (r: Option<usize>)
    ensures
        match r {
            Some(j) => spec_skip_value(s@, i as int) == Some(j as int) && i < j && j <= s@.len(),
            None => spec_skip_value(s@, i as int) is None,
        },
    decreases s@.len() - i, 0int,
{
    if i >= s.len() {
        return None;
    }
    let b = s[i];
    if b == 0x22 {
        match parse_string(s, i) {
            Some((_c, j)) => Some(j),
            None => None,
        }
    } else if b == 0x7b {
        let j = skip_ws(s, i + 1);
        skip_members(s, j, true)
    } else if b == 0x5b {
        let j = skip_ws(s, i + 1);
        skip_items(s, j, true)
    } else if b == 0x74 {
        if s.len() - i >= 4 && s[i + 1] == 0x72 && s[i + 2] == 0x75 && s[i + 3] == 0x65 {
            Some(i + 4)
        } else {
            None
        }
    } else if b == 0x66 {
        if s.len() - i >= 5 && s[i + 1] == 0x61 && s[i + 2] == 0x6c && s[i + 3] == 0x73 && s[i + 4]
            == 0x65 {
            Some(i + 5)
        } else {
            None
        }
    } else if b == 0x6e {
        if s.len() - i >= 4 && s[i + 1] == 0x75 && s[i + 2] == 0x6c && s[i + 3] == 0x6c {
            Some(i + 4)
        } else {
            None
        }
    } else if b == 0x2d || byte_is_digit(b) {
        skip_number(s, i)
    } else {
        None
    }
}

fn skip_members(s: &[u8], i: usize, allow_close: bool) -> (r: Option<usize>)
    ensures
        match r {
            Some(j) => spec_skip_members(s@, i as int, allow_close) == Some(j as int) && i < j && j
                <= s@.len(),
            None => spec_skip_members(s@, i as int, allow_close) is None,
        },
    decreases s@.len() - i, 1int,
{
    if i >= s.len() {
        return None;
    }
    if allow_close && s[i] == 0x7d {
        return Some(i + 1);
    }
    let j1 = match parse_string(s, i) {
        Some((_key, j1)) => j1,
        None => {
            return None;
        },
    };
    let j2 = skip_ws(s, j1);
    if !(j2 < s.len() && s[j2] == 0x3a) {
        return None;
    }
    let j3 = skip_ws(s, j2 + 1);
    let j4 = match skip_value(s, j3) {
        Some(j4) => j4,
        None => {
            return None;
        },
    };
    let j5 = skip_ws(s, j4);
    if j5 < s.len() && s[j5] == 0x2c {
        let j6 = skip_ws(s, j5 + 1);
        skip_members(s, j6, false)
    } else if j5 < s.len() && s[j5] == 0x7d {
        Some(j5 + 1)
    } else {
        None
    }
}

fn skip_items(s: &[u8], i: usize, allow_close: bool) -> (r: Option<usize>)
    ensures
        match r {
            Some(j) => spec_skip_items(s@, i as int, allow_close) == Some(j as int) && i < j && j
                <= s@.len(),
            None => spec_skip_items(s@, i as int, allow_close) is None,
        },
    decreases s@.len() - i, 1int,
{
    if i >= s.len() {
        return None;
    }
    if allow_close && s[i] == 0x5d {
        return Some(i + 1);
    }
    let j = match skip_value(s, i) {
        Some(j) => j,
        None => {
            return None;
        },
    };
    let j2 = skip_ws(s, j);
    if j2 < s.len() && s[j2] == 0x2c {
        let j3 = skip_ws(s, j2 + 1);
        skip_items(s, j3, false)
    } else if j2 < s.len() && s[j2] == 0x5d {
        Some(j2 + 1)
    } else {
        None
    }
}

fn is_product_key(k: &Vec<u8>) -> (r: bool)
    requires
        valid_utf8(k@),
    ensures
        r == (decode_utf8(k@) == product_key()),
{
    proof {
        broadcast use vstd::utf8::is_ascii_chars_encode_utf8, vstd::utf8::decode_utf8_encode_utf8;

        reveal_strlit("product");
        assert(vstd::utf8::is_ascii_chars("product"@)) by {
            assert forall|i: int| 0 <= i < "product"@.len() implies '\0' <= #[trigger] "product"@[i]
                <= '\u{7f}' by {}
        }
        assert(encode_utf8(product_key()) =~= seq![
            0x70u8,
            0x72u8,
            0x6fu8,
            0x64u8,
            0x75u8,
            0x63u8,
            0x74u8,
        ]);
    }
    let r = k.len() == 7 && k[0] == 0x70 && k[1] == 0x72 && k[2] == 0x6f && k[3] == 0x64 && k[4]
        == 0x75 && k[5] == 0x63 && k[6] == 0x74;
    proof {
        broadcast use vstd::utf8::decode_utf8_encode_utf8;

        if r {
            assert(k@ =~= encode_utf8(product_key()));
            assert(decode_utf8(k@) == product_key());
        } else {
            if decode_utf8(k@) == product_key() {
                assert(encode_utf8(decode_utf8(k@)) == k@);
                assert(k@.len() == 7);
                assert(k@[0] == 0x70 && k@[1] == 0x72 && k@[2] == 0x6f && k@[3] == 0x64 && k@[4]
                    == 0x75 && k@[5] == 0x63 && k@[6] == 0x74);
            }
        }
    }
    r
}

fn is_version_key(k: &Vec<u8>) -> (r: bool)
    requires
        valid_utf8(k@),
    ensures
        r == (decode_utf8(k@) == version_key()),
{
    proof {
        broadcast use vstd::utf8::is_ascii_chars_encode_utf8, vstd::utf8::decode_utf8_encode_utf8;

        reveal_strlit("version");
        assert(vstd::utf8::is_ascii_chars("version"@)) by {
            assert forall|i: int| 0 <= i < "version"@.len() implies '\0' <= #[trigger] "version"@[i]
                <= '\u{7f}' by {}
        }
        assert(encode_utf8(version_key()) =~= seq![
            0x76u8,
            0x65u8,
            0x72u8,
            0x73u8,
            0x69u8,
            0x6fu8,
            0x6eu8,
        ]);
    }
    let r = k.len() == 7 && k[0] == 0x76 && k[1] == 0x65 && k[2] == 0x72 && k[3] == 0x73 && k[4]
        == 0x69 && k[5] == 0x6f && k[6] == 0x6e;
    proof {
        broadcast use vstd::utf8::decode_utf8_encode_utf8;

        if r {
            assert(k@ =~= encode_utf8(version_key()));
            assert(decode_utf8(k@) == version_key());
        } else {
            if decode_utf8(k@) == version_key() {
                assert(encode_utf8(decode_utf8(k@)) == k@);
                assert(k@.len() == 7);
                assert(k@[0] == 0x76 && k@[1] == 0x65 && k@[2] == 0x72 && k@[3] == 0x73 && k@[4]
                    == 0x69 && k@[5] == 0x6f && k@[6] == 0x6e);
            }
        }
    }
    r
}

fn parse_members(s: &[u8], i: usize, allow_close: bool, p: Option<Vec<u8>>, v: Option<Vec<u8>>) -> (r:
    Option<((Option<Vec<u8>>, Option<Vec<u8>>), usize)>)
    requires
        opt_valid_utf8(p),
        opt_valid_utf8(v),
    ensures
        match r {
            Some(((p2, v2), j)) => spec_parse_members(
                s@,
                i as int,
                allow_close,
                opt_decoded(p),
                opt_decoded(v),
            ) == Some(((opt_decoded(p2), opt_decoded(v2)), j as int)) && i < j && j <= s@.len()
                && opt_valid_utf8(p2) && opt_valid_utf8(v2),
            None => spec_parse_members(
                s@,
                i as int,
                allow_close,
                opt_decoded(p),
                opt_decoded(v),
            ) is None,
        },
    decreases s@.len() - i,
{
    if i >= s.len() {
        return None;
    }
    if allow_close && s[i] == 0x7d {
        return Some(((p, v), i + 1));
    }
    let (key, j1) = match parse_string(s, i) {
        Some(x) => x,
        None => {
            return None;
        },
    };
    let j2 = skip_ws(s, j1);
    if !(j2 < s.len() && s[j2] == 0x3a) {
        return None;
    }
    let j3 = skip_ws(s, j2 + 1);
    let stepped: (Option<Vec<u8>>, Option<Vec<u8>>, usize) = if is_product_key(&key) {
        if p.is_some() {
            return None;
        }
        match parse_string(s, j3) {
            Some((val, j4)) => (Some(val), v, j4),
            None => {
                return None;
            },
        }
    } else if is_version_key(&key) {
        if v.is_some() {
            return None;
        }
        match parse_string(s, j3) {
            Some((val, j4)) => (p, Some(val), j4),
            None => {
                return None;
            },
        }
    } else {
        match skip_value(s, j3) {
            Some(j4) => (p, v, j4),
            None => {
                return None;
            },
        }
    };
    let (p2, v2, j4) = stepped;
    let j5 = skip_ws(s, j4);
    if j5 < s.len() && s[j5] == 0x2c {
        let j6 = skip_ws(s, j5 + 1);
        parse_members(s, j6, false, p2, v2)
    } else if j5 < s.len() && s[j5] == 0x7d {
        Some(((p2, v2), j5 + 1))
    } else {
        None
    }
}

/// Parse a complete update payload into the UTF-8 bytes of its `product`
/// and `version` fields.
pub fn parse_package_fields(s: &[u8]) -> (r: Option<(Vec<u8>, Vec<u8>)>)
    ensures
        match r {
            Some((pb, vb)) => spec_parse_package(s@) matches Some((pc, vc)) && pb@ == encode_utf8(
                pc,
            ) && vb@ == encode_utf8(vc) && valid_utf8(pb@) && valid_utf8(vb@),
            None => spec_parse_package(s@) is None,
        },
{
    let i = skip_ws(s, 0);
    if !(i < s.len() && s[i] == 0x7b) {
        return None;
    }
    let j = skip_ws(s, i + 1);
    match parse_members(s, j, true, None, None) {
        None => None,
        Some(((p, v), k)) => {
            let e = skip_ws(s, k);
            if e != s.len() {
                return None;
            }
            match (p, v) {
                (Some(pb), Some(vb)) => Some((pb, vb)),
                _ => None,
            }
        },
    }
}

} // verus!
