//! Scanning primitives for the JSON the service speaks in the flows
//! this crate covers: strings with the short and `\uXXXX` escapes
//! (surrogate pairs excepted), unsigned integers, the literals `true`,
//! `false` and `null`, whitespace, and a skip of one value of any
//! shape for positions whose content is ignored.
//!
//! Every executable scanner returns exactly what its spec-level
//! counterpart denotes, so the decoders built on top of them have
//! exact contracts.

use vstd::prelude::*;

use crate::text::{first_non_space, is_space, is_space_exec};

verus! {

/// Relies on `char::from_u32`: it returns `Some` exactly for the
/// non-surrogate code points up to `0x10FFFF`, holding the character
/// with that value.
pub assume_specification[ char::from_u32 ](i: u32) -> (r: Option<char>)
    ensures
        r is Some <==> (i < 0xD800 || (0xE000 <= i && i <= 0x10FFFF)),
        r matches Some(c) ==> c == (i as char),
;

/// Whether `c` is a decimal digit.
pub open spec fn is_digit(c: char) -> bool {
    '0' as u32 <= c as u32 && c as u32 <= '9' as u32
}

/// The value of the decimal digit `c`.
pub open spec fn digit_val(c: char) -> int {
    c as u32 - '0' as u32
}

/// Whether `c` is a hexadecimal digit, either case.
pub open spec fn is_hex(c: char) -> bool {
    ('0' as u32 <= c as u32 && c as u32 <= '9' as u32) || ('a' as u32 <= c as u32 && c as u32
        <= 'f' as u32) || ('A' as u32 <= c as u32 && c as u32 <= 'F' as u32)
}

/// The value of the hexadecimal digit `c`.
pub open spec fn hex_val(c: char) -> int {
    if '0' as u32 <= c as u32 && c as u32 <= '9' as u32 {
        c as u32 - '0' as u32
    } else if 'a' as u32 <= c as u32 && c as u32 <= 'f' as u32 {
        c as u32 - 'a' as u32 + 10
    } else {
        c as u32 - 'A' as u32 + 10
    }
}

/// Whether four hexadecimal digits stand at `i`.
pub open spec fn hex4_ok(s: Seq<char>, i: int) -> bool {
    0 <= i && i + 4 <= s.len() && is_hex(s[i]) && is_hex(s[i + 1]) && is_hex(s[i + 2]) && is_hex(
        s[i + 3],
    )
}

/// The value of the four hexadecimal digits at `i`.
pub open spec fn hex4_val(s: Seq<char>, i: int) -> int {
    4096 * hex_val(s[i]) + 256 * hex_val(s[i + 1]) + 16 * hex_val(s[i + 2]) + hex_val(s[i + 3])
}

/// Whether `n` is a code point that a `\uXXXX` escape may denote on
/// its own: not a surrogate half.
pub open spec fn scalar_code(n: int) -> bool {
    0 <= n < 0xD800 || 0xE000 <= n <= 0xFFFF
}

/// Scans a string body from `i` (just past the opening quote), with
/// `acc` holding the characters already read: yields the denoted
/// characters and the index just past the closing quote, or `None` if
/// the text up to the closing quote is not a string body of the
/// accepted grammar.
pub open spec fn str_body(s: Seq<char>, i: int, acc: Seq<char>) -> Option<(Seq<char>, int)>
    decreases s.len() - i,
{
    if i < 0 || i >= s.len() {
        None
    } else if s[i] == '"' {
        Some((acc, i + 1))
    } else if s[i] == '\\' {
        if i + 1 >= s.len() {
            None
        } else {
            let e = s[i + 1];
            if e == '"' {
                str_body(s, i + 2, acc.push('"'))
            } else if e == '\\' {
                str_body(s, i + 2, acc.push('\\'))
            } else if e == '/' {
                str_body(s, i + 2, acc.push('/'))
            } else if e == 'n' {
                str_body(s, i + 2, acc.push('\n'))
            } else if e == 'r' {
                str_body(s, i + 2, acc.push('\r'))
            } else if e == 't' {
                str_body(s, i + 2, acc.push('\t'))
            } else if e == 'b' {
                str_body(s, i + 2, acc.push('\u{8}'))
            } else if e == 'f' {
                str_body(s, i + 2, acc.push('\u{c}'))
            } else if e == 'u' {
                if hex4_ok(s, i + 2) && scalar_code(hex4_val(s, i + 2)) {
                    str_body(s, i + 6, acc.push(hex4_val(s, i + 2) as u32 as char))
                } else {
                    None
                }
            } else {
                None
            }
        }
    } else if (s[i] as u32) < 0x20 {
        None
    } else {
        str_body(s, i + 1, acc.push(s[i]))
    }
}

/// Scans a JSON string literal starting at `i`.
pub open spec fn scan_string(s: Seq<char>, i: int) -> Option<(Seq<char>, int)> {
    if 0 <= i < s.len() && s[i] == '"' {
        str_body(s, i + 1, Seq::empty())
    } else {
        None
    }
}

/// A successful string-body scan always moves forward and stays in
/// bounds.
pub proof fn lemma_str_body_progress(s: Seq<char>, i: int, acc: Seq<char>)
    ensures
        str_body(s, i, acc) matches Some(r) ==> i < r.1 <= s.len(),
    decreases s.len() - i,
{
    if i < 0 || i >= s.len() {
    } else if s[i] == '"' {
    } else if s[i] == '\\' {
        if i + 1 < s.len() {
            let e = s[i + 1];
            lemma_str_body_progress(s, i + 2, acc.push('"'));
            lemma_str_body_progress(s, i + 2, acc.push('\\'));
            lemma_str_body_progress(s, i + 2, acc.push('/'));
            lemma_str_body_progress(s, i + 2, acc.push('\n'));
            lemma_str_body_progress(s, i + 2, acc.push('\r'));
            lemma_str_body_progress(s, i + 2, acc.push('\t'));
            lemma_str_body_progress(s, i + 2, acc.push('\u{8}'));
            lemma_str_body_progress(s, i + 2, acc.push('\u{c}'));
            if e == 'u' && hex4_ok(s, i + 2) && scalar_code(hex4_val(s, i + 2)) {
                lemma_str_body_progress(s, i + 6, acc.push(hex4_val(s, i + 2) as u32 as char));
            }
        }
    } else {
        lemma_str_body_progress(s, i + 1, acc.push(s[i]));
    }
}

/// A successful string scan always moves forward and stays in bounds.
pub proof fn lemma_scan_string_progress(s: Seq<char>, i: int)
    ensures
        scan_string(s, i) matches Some(r) ==> i < r.1 <= s.len(),
{
    if 0 <= i < s.len() && s[i] == '"' {
        lemma_str_body_progress(s, i + 1, Seq::empty());
    }
}

/// `first_non_space` stays between its starting point and the end.
pub proof fn lemma_first_non_space_bounds(s: Seq<char>, i: int)
    requires
        0 <= i <= s.len(),
    ensures
        i <= first_non_space(s, i) <= s.len(),
    decreases s.len() - i,
{
    if i < s.len() && is_space(s[i]) {
        lemma_first_non_space_bounds(s, i + 1);
    }
}

/// Scans the digits of an unsigned integer from `i`, with `acc`
/// holding the value read so far: yields the value and the index of
/// the first non-digit, or `None` if the value exceeds `u64::MAX`.
pub open spec fn num_body(s: Seq<char>, i: int, acc: u64) -> Option<(u64, int)>
    decreases s.len() - i,
{
    if i < 0 || i > s.len() {
        None
    } else if i == s.len() || !is_digit(s[i]) {
        Some((acc, i))
    } else {
        let d = digit_val(s[i]);
        if acc as int * 10 + d > u64::MAX as int {
            None
        } else {
            num_body(s, i + 1, (acc as int * 10 + d) as u64)
        }
    }
}

/// Scans a JSON unsigned integer starting at `i`: at least one digit,
/// no leading zero, value within `u64`.
pub open spec fn scan_uint(s: Seq<char>, i: int) -> Option<(u64, int)> {
    if !(0 <= i < s.len() && is_digit(s[i])) {
        None
    } else if s[i] == '0' && i + 1 < s.len() && is_digit(s[i + 1]) {
        None
    } else {
        num_body(s, i, 0)
    }
}

/// A digit scan never moves backward and stays in bounds.
pub proof fn lemma_num_body_bounds(s: Seq<char>, i: int, acc: u64)
    ensures
        num_body(s, i, acc) matches Some(r) ==> i <= r.1 <= s.len(),
    decreases s.len() - i,
{
    if 0 <= i < s.len() && is_digit(s[i]) {
        let d = digit_val(s[i]);
        if acc as int * 10 + d <= u64::MAX as int {
            lemma_num_body_bounds(s, i + 1, (acc as int * 10 + d) as u64);
        }
    }
}

/// A successful integer scan always moves forward and stays in bounds.
pub proof fn lemma_scan_uint_progress(s: Seq<char>, i: int)
    ensures
        scan_uint(s, i) matches Some(r) ==> i < r.1 <= s.len(),
{
    if 0 <= i < s.len() && is_digit(s[i]) {
        let d = digit_val(s[i]);
        if 0 as int * 10 + d <= u64::MAX as int {
            lemma_num_body_bounds(s, i + 1, (0 as int * 10 + d) as u64);
        }
    }
}

/// Scanning the escaped form of `x`, a closing quote right after it,
/// recovers exactly `x`: the step case walks one character and its
/// escape at a time.
proof fn lemma_str_body_of_escaped(s: Seq<char>, i: int, x: Seq<char>, acc: Seq<char>)
    requires
        0 <= i,
        i + crate::text::escape_seq(x).len() < s.len(),
        forall|k: int|
            0 <= k < crate::text::escape_seq(x).len() ==> s[i + k] == crate::text::escape_seq(x)[k],
        s[i + crate::text::escape_seq(x).len()] == '"',
    ensures
        str_body(s, i, acc) == Some(
            (acc + x, i + crate::text::escape_seq(x).len() + 1),
        ),
    decreases x.len(),
{
    let esc = crate::text::escape_seq(x);
    if x.len() == 0 {
        assert(esc.len() == 0);
        assert(s[i] == '"');
        assert(acc + x =~= acc);
    } else {
        let c = x[0];
        let e = crate::text::escape_char(c);
        crate::text::lemma_escape_seq_front(x);
        let xd = x.drop_first();
        let escd = crate::text::escape_seq(xd);
        assert(esc == e + escd);
        let m = e.len() as int;
        assert forall|k: int| 0 <= k < escd.len() implies s[(i + m) + k] == escd[k] by {
            let kk = m + k;
            assert(0 <= kk < esc.len());
            assert(s[i + kk] == esc[kk]);
            assert(i + kk == (i + m) + k);
            assert(esc[kk] == escd[k]);
        }
        assert forall|k: int| 0 <= k < m implies s[i + k] == e[k] by {
            assert(0 <= k < esc.len());
            assert(s[i + k] == esc[k]);
            assert(esc[k] == e[k]);
        }
        assert((i + m) + escd.len() == i + esc.len());
        assert(s[(i + m) + escd.len() as int] == '"');
        if c == '"' {
            assert(s[i] == '\\' && s[i + 1] == '"');
            lemma_str_body_of_escaped(s, i + 2, xd, acc.push('"'));
            assert(acc.push('"') + xd =~= acc + x);
        } else if c == '\\' {
            assert(s[i] == '\\' && s[i + 1] == '\\');
            lemma_str_body_of_escaped(s, i + 2, xd, acc.push('\\'));
            assert(acc.push('\\') + xd =~= acc + x);
        } else if c == '\n' {
            assert(s[i] == '\\' && s[i + 1] == 'n');
            lemma_str_body_of_escaped(s, i + 2, xd, acc.push('\n'));
            assert(acc.push('\n') + xd =~= acc + x);
        } else if c == '\r' {
            assert(s[i] == '\\' && s[i + 1] == 'r');
            lemma_str_body_of_escaped(s, i + 2, xd, acc.push('\r'));
            assert(acc.push('\r') + xd =~= acc + x);
        } else if c == '\t' {
            assert(s[i] == '\\' && s[i + 1] == 't');
            lemma_str_body_of_escaped(s, i + 2, xd, acc.push('\t'));
            assert(acc.push('\t') + xd =~= acc + x);
        } else if (c as u32) < 0x20 {
            let hi = (c as u32 / 16) as int;
            let lo = (c as u32 % 16) as int;
            assert(e =~= seq![
                '\\',
                'u',
                '0',
                '0',
                crate::text::hex_digit(hi),
                crate::text::hex_digit(lo),
            ]);
            assert(m == 6);
            assert(s[i + 0] == e[0]);
            assert(i + 0 == i);
            assert(s[i] == '\\');
            assert(s[i + 1] == 'u');
            assert(s[i + 2] == '0' && s[i + 3] == '0');
            assert(s[i + 4] == crate::text::hex_digit(hi) && s[i + 5] == crate::text::hex_digit(
                lo,
            ));
            assert(0 <= hi < 2 && 0 <= lo < 16);
            assert(is_hex('0') && hex_val('0') == 0);
            assert(is_hex(crate::text::hex_digit(hi)) && hex_val(crate::text::hex_digit(hi))
                == hi);
            assert(is_hex(crate::text::hex_digit(lo)) && hex_val(crate::text::hex_digit(lo))
                == lo);
            assert(hex4_ok(s, i + 2));
            vstd::arithmetic::div_mod::lemma_fundamental_div_mod(c as u32 as int, 16);
            assert(hex4_val(s, i + 2) == c as u32);
            assert(scalar_code(hex4_val(s, i + 2)));
            assert(hex4_val(s, i + 2) as u32 == c as u32);
            vstd::utf8::char_u32_cast(c, c as u32);
            assert(hex4_val(s, i + 2) as u32 as char == c);
            lemma_str_body_of_escaped(s, i + 6, xd, acc.push(c));
            assert(acc.push(c) + xd =~= acc + x);
        } else {
            assert(e =~= seq![c]);
            assert(s[i + 0] == e[0]);
            assert(i + 0 == i);
            assert(s[i] == e[0]);
            assert(s[i] == c);
            assert(c != '"' && c != '\\' && c as u32 >= 0x20);
            lemma_str_body_of_escaped(s, i + 1, xd, acc.push(c));
            assert(acc.push(c) + xd =~= acc + x);
        }
    }
}

/// Round trip of the library's own escaping: a JSON string literal
/// whose body is the escaped form of `x` scans back to exactly `x`,
/// for every `x` and whatever follows the literal.
pub proof fn lemma_escape_scan_round_trip(x: Seq<char>, rest: Seq<char>)
    ensures
        ({
            let s = seq!['"'] + crate::text::escape_seq(x) + seq!['"'] + rest;
            scan_string(s, 0) == Some((x, crate::text::escape_seq(x).len() as int + 2))
        }),
{
    let esc = crate::text::escape_seq(x);
    let s = seq!['"'] + esc + seq!['"'] + rest;
    assert(s[0] == '"');
    assert(forall|k: int| 0 <= k < esc.len() ==> s[1 + k] == esc[k]);
    assert(s[1 + esc.len() as int] == '"');
    lemma_str_body_of_escaped(s, 1, x, Seq::empty());
    assert(Seq::<char>::empty() + x =~= x);
}

/// A scalar JSON value at spec level.
pub enum ScalarVal {
    SText(Seq<char>),
    SNum(u64),
    SFlag(bool),
    SNull,
}

/// Whether `s` holds the literal `true` at `i`.
pub open spec fn lit_true_at(s: Seq<char>, i: int) -> bool {
    0 <= i && i + 4 <= s.len() && s[i] == 't' && s[i + 1] == 'r' && s[i + 2] == 'u' && s[i + 3]
        == 'e'
}

/// Whether `s` holds the literal `false` at `i`.
pub open spec fn lit_false_at(s: Seq<char>, i: int) -> bool {
    0 <= i && i + 5 <= s.len() && s[i] == 'f' && s[i + 1] == 'a' && s[i + 2] == 'l' && s[i + 3]
        == 's' && s[i + 4] == 'e'
}

/// Whether `s` holds the literal `null` at `i`.
pub open spec fn lit_null_at(s: Seq<char>, i: int) -> bool {
    0 <= i && i + 4 <= s.len() && s[i] == 'n' && s[i + 1] == 'u' && s[i + 2] == 'l' && s[i + 3]
        == 'l'
}

/// Scans one scalar value (string, unsigned integer, `true`, `false`
/// or `null`) starting at `i`: what a required member's value must
/// be. For ignored positions, which admit any shape, see
/// `skip_value`.
pub open spec fn scan_scalar(s: Seq<char>, i: int) -> Option<(ScalarVal, int)> {
    if i < 0 || i >= s.len() {
        None
    } else if s[i] == '"' {
        match scan_string(s, i) {
            Some(r) => Some((ScalarVal::SText(r.0), r.1)),
            None => None,
        }
    } else if is_digit(s[i]) {
        match scan_uint(s, i) {
            Some(r) => Some((ScalarVal::SNum(r.0), r.1)),
            None => None,
        }
    } else if lit_true_at(s, i) {
        Some((ScalarVal::SFlag(true), i + 4))
    } else if lit_false_at(s, i) {
        Some((ScalarVal::SFlag(false), i + 5))
    } else if lit_null_at(s, i) {
        Some((ScalarVal::SNull, i + 4))
    } else {
        None
    }
}

/// A successful scalar scan always moves forward and stays in bounds.
pub proof fn lemma_scan_scalar_progress(s: Seq<char>, i: int)
    ensures
        scan_scalar(s, i) matches Some(r) ==> i < r.1 <= s.len(),
{
    lemma_scan_string_progress(s, i);
    lemma_scan_uint_progress(s, i);
}

/// One past the run of decimal digits starting at `i`.
pub open spec fn end_digits(s: Seq<char>, i: int) -> int
    decreases s.len() - i,
{
    if 0 <= i && i < s.len() && is_digit(s[i]) {
        end_digits(s, i + 1)
    } else {
        i
    }
}

/// `end_digits` stays between its starting point and the end.
pub proof fn lemma_end_digits_bounds(s: Seq<char>, i: int)
    requires
        0 <= i <= s.len(),
    ensures
        i <= end_digits(s, i) <= s.len(),
    decreases s.len() - i,
{
    if i < s.len() && is_digit(s[i]) {
        lemma_end_digits_bounds(s, i + 1);
    }
}

/// Skips one JSON number of any shape — optional sign, fraction and
/// exponent — validating its grammar without bounding its value. Used
/// only in positions whose content is ignored.
pub open spec fn skip_number(s: Seq<char>, i: int) -> Option<int> {
    let j0 = if 0 <= i < s.len() && s[i] == '-' {
        i + 1
    } else {
        i
    };
    if !(0 <= j0 < s.len() && is_digit(s[j0])) {
        None
    } else if s[j0] == '0' && j0 + 1 < s.len() && is_digit(s[j0 + 1]) {
        None
    } else {
        let j1 = end_digits(s, j0);
        let j2 = if j1 < s.len() && s[j1] == '.' {
            if j1 + 1 < s.len() && is_digit(s[j1 + 1]) {
                end_digits(s, j1 + 1)
            } else {
                -1
            }
        } else {
            j1
        };
        if j2 < 0 {
            None
        } else {
            let j3 = if j2 < s.len() && (s[j2] == 'e' || s[j2] == 'E') {
                let je = if j2 + 1 < s.len() && (s[j2 + 1] == '+' || s[j2 + 1] == '-') {
                    j2 + 2
                } else {
                    j2 + 1
                };
                if je < s.len() && is_digit(s[je]) {
                    end_digits(s, je)
                } else {
                    -1
                }
            } else {
                j2
            };
            if j3 < 0 {
                None
            } else {
                Some(j3)
            }
        }
    }
}

/// Skips one JSON value of any shape starting at `i`: the index just
/// past it, or `None` where no value of the grammar stands there. The
/// range tests before the recursive calls only discharge termination;
/// they always hold of the scans' results.
pub open spec fn skip_value(s: Seq<char>, i: int) -> Option<int>
    decreases s.len() - i, 0int,
{
    if i < 0 || i >= s.len() {
        None
    } else if s[i] == '"' {
        match scan_string(s, i) {
            Some(r) => Some(r.1),
            None => None,
        }
    } else if s[i] == '-' || is_digit(s[i]) {
        skip_number(s, i)
    } else if lit_true_at(s, i) {
        Some(i + 4)
    } else if lit_false_at(s, i) {
        Some(i + 5)
    } else if lit_null_at(s, i) {
        Some(i + 4)
    } else if s[i] == '[' {
        let j = first_non_space(s, i + 1);
        if j < s.len() && s[j] == ']' {
            Some(j + 1)
        } else if i < j <= s.len() {
            skip_elems(s, j)
        } else {
            None
        }
    } else if s[i] == '{' {
        let j = first_non_space(s, i + 1);
        if j < s.len() && s[j] == '}' {
            Some(j + 1)
        } else if i < j <= s.len() {
            skip_members(s, j)
        } else {
            None
        }
    } else {
        None
    }
}

/// Skips the elements of a non-empty array from `i` (at the first
/// element) up to and past the closing bracket.
pub open spec fn skip_elems(s: Seq<char>, i: int) -> Option<int>
    decreases s.len() - i, 1int,
{
    match skip_value(s, i) {
        None => None,
        Some(j) => if !(i < j <= s.len()) {
            None
        } else {
            let j2 = first_non_space(s, j);
            if j2 < s.len() && s[j2] == ',' {
                let i2 = first_non_space(s, j2 + 1);
                if i < i2 <= s.len() {
                    skip_elems(s, i2)
                } else {
                    None
                }
            } else if j2 < s.len() && s[j2] == ']' {
                Some(j2 + 1)
            } else {
                None
            }
        },
    }
}

/// Skips the members of a non-empty object from `i` (at the first
/// key) up to and past the closing brace.
pub open spec fn skip_members(s: Seq<char>, i: int) -> Option<int>
    decreases s.len() - i, 1int,
{
    match scan_string(s, i) {
        None => None,
        Some(kr) => {
            let j = first_non_space(s, kr.1);
            if !(j < s.len() && s[j] == ':') {
                None
            } else {
                let j2 = first_non_space(s, j + 1);
                if !(i < j2 <= s.len()) {
                    None
                } else {
                    match skip_value(s, j2) {
                        None => None,
                        Some(jv) => {
                            let j3 = first_non_space(s, jv);
                            if j3 < s.len() && s[j3] == ',' {
                                let i2 = first_non_space(s, j3 + 1);
                                if i < i2 <= s.len() {
                                    skip_members(s, i2)
                                } else {
                                    None
                                }
                            } else if j3 < s.len() && s[j3] == '}' {
                                Some(j3 + 1)
                            } else {
                                None
                            }
                        },
                    }
                }
            }
        },
    }
}

/// A scalar JSON value as executable data.
pub enum Scalar {
    Text(Vec<char>),
    Num(u64),
    Flag(bool),
    Null,
}

/// The spec-level value an executable scalar denotes.
pub open spec fn scalar_view(sc: Scalar) -> ScalarVal {
    match sc {
        Scalar::Text(v) => ScalarVal::SText(v@),
        Scalar::Num(n) => ScalarVal::SNum(n),
        Scalar::Flag(b) => ScalarVal::SFlag(b),
        Scalar::Null => ScalarVal::SNull,
    }
}

/// The first index at or after `i` holding a non-whitespace character.
pub fn skip_spaces(v: &Vec<char>, i: usize) -> (j: usize)
    requires
        i <= v@.len(),
    ensures
        j == first_non_space(v@, i as int),
        i <= j <= v@.len(),
{
    let n = v.len();
    let mut j = i;
    while j < n && is_space_exec(v[j])
        invariant
            i <= j <= n,
            n == v@.len(),
            first_non_space(v@, i as int) == first_non_space(v@, j as int),
        decreases n - j,
    {
        j += 1;
    }
    j
}

/// Scans a JSON string literal starting at `i`, returning its
/// characters and the index just past the closing quote.
pub fn scan_string_exec(v: &Vec<char>, i: usize) -> (r: Option<(Vec<char>, usize)>)
    requires
        i <= v@.len(),
    ensures
        match r {
            Some((w, j)) => scan_string(v@, i as int) == Some((w@, j as int)) && i < j <= v@.len(),
            None => scan_string(v@, i as int) is None,
        },
{
    let n = v.len();
    if i >= n || v[i] != '"' {
        return None;
    }
    let mut j = i + 1;
    let mut acc: Vec<char> = Vec::new();
    loop
        invariant
            i + 1 <= j <= n,
            n == v@.len(),
            v@[i as int] == '"',
            str_body(v@, i + 1 as int, Seq::empty()) == str_body(v@, j as int, acc@),
        decreases n - j,
    {
        if j >= n {
            return None;
        }
        let c = v[j];
        if c == '"' {
            proof {
                lemma_str_body_progress(v@, i + 1 as int, Seq::empty());
            }
            return Some((acc, j + 1));
        } else if c == '\\' {
            if j + 1 >= n {
                return None;
            }
            let e = v[j + 1];
            if e == 'u' {
                if n - j < 6 {
                    return None;
                }
                if !(hex_exec(v[j + 2]) && hex_exec(v[j + 3]) && hex_exec(v[j + 4]) && hex_exec(
                    v[j + 5],
                )) {
                    return None;
                }
                let m: u32 = 4096 * hex_val_exec(v[j + 2]) + 256 * hex_val_exec(v[j + 3]) + 16
                    * hex_val_exec(v[j + 4]) + hex_val_exec(v[j + 5]);
                assert(m as int == hex4_val(v@, j + 2) && hex4_ok(v@, j + 2));
                if 0xD800 <= m && m < 0xE000 {
                    return None;
                }
                acc.push(char::from_u32(m).unwrap());
                j += 6;
            } else {
                if e == '"' {
                    acc.push('"');
                } else if e == '\\' {
                    acc.push('\\');
                } else if e == '/' {
                    acc.push('/');
                } else if e == 'n' {
                    acc.push('\n');
                } else if e == 'r' {
                    acc.push('\r');
                } else if e == 't' {
                    acc.push('\t');
                } else if e == 'b' {
                    acc.push('\u{8}');
                } else if e == 'f' {
                    acc.push('\u{c}');
                } else {
                    return None;
                }
                j += 2;
            }
        } else if (c as u32) < 0x20 {
            return None;
        } else {
            acc.push(c);
            j += 1;
        }
    }
}

/// Scans a JSON unsigned integer starting at `i`.
pub fn scan_uint_exec(v: &Vec<char>, i: usize) -> (r: Option<(u64, usize)>)
    requires
        i <= v@.len(),
    ensures
        match r {
            Some((x, j)) => scan_uint(v@, i as int) == Some((x, j as int)) && i < j <= v@.len(),
            None => scan_uint(v@, i as int) is None,
        },
{
    let n = v.len();
    if i >= n || !digit_exec(v[i]) {
        return None;
    }
    if v[i] == '0' && i + 1 < n && digit_exec(v[i + 1]) {
        return None;
    }
    let mut j = i;
    let mut acc: u64 = 0;
    loop
        invariant
            i <= j <= n,
            i < n,
            n == v@.len(),
            is_digit(v@[i as int]),
            !(v@[i as int] == '0' && i + 1 < n && is_digit(v@[i + 1])),
            num_body(v@, i as int, 0) == num_body(v@, j as int, acc),
        decreases n - j,
    {
        if j >= n || !digit_exec(v[j]) {
            proof {
                let d0 = digit_val(v@[i as int]);
                assert(0 <= d0 <= 9);
                assert(0 <= (u64::MAX as int - d0) / 10);
                assert(num_body(v@, i as int, 0) == num_body(v@, i + 1, (0 * 10 + d0) as u64));
                lemma_num_body_bounds(v@, i + 1, (0 * 10 + d0) as u64);
                assert(num_body(v@, j as int, acc) == Some((acc, j as int)));
                assert(num_body(v@, i as int, 0) == Some((acc, j as int)));
                assert(i < j);
                assert(scan_uint(v@, i as int) == Some((acc, j as int)));
            }
            return Some((acc, j));
        }
        let u = v[j] as u32;
        assert(48 <= u && u <= 57);
        let d: u64 = (u - 48) as u64;
        assert(d == digit_val(v@[j as int]) && d <= 9);
        proof {
            vstd::arithmetic::div_mod::lemma_fundamental_div_mod(u64::MAX as int - d as int, 10);
            vstd::arithmetic::div_mod::lemma_mod_bound(u64::MAX as int - d as int, 10);
        }
        if acc > (u64::MAX - d) / 10 {
            return None;
        }
        acc = acc * 10 + d;
        j += 1;
    }
}

/// Executable mirror of `is_digit`.
fn digit_exec(c: char) -> (r: bool)
    ensures
        r == is_digit(c),
{
    let u = c as u32;
    48 <= u && u <= 57
}

/// Executable mirror of `end_digits`.
fn end_digits_exec(v: &Vec<char>, i: usize) -> (j: usize)
    requires
        i <= v@.len(),
    ensures
        j == end_digits(v@, i as int),
        i <= j <= v@.len(),
{
    let n = v.len();
    let mut j = i;
    while j < n && digit_exec(v[j])
        invariant
            i <= j <= n,
            n == v@.len(),
            end_digits(v@, i as int) == end_digits(v@, j as int),
        decreases n - j,
    {
        j += 1;
    }
    j
}

/// Executable mirror of `skip_number`.
fn skip_number_exec(v: &Vec<char>, i: usize) -> (r: Option<usize>)
    requires
        i <= v@.len(),
    ensures
        match r {
            Some(j) => skip_number(v@, i as int) == Some(j as int) && i < j <= v@.len(),
            None => skip_number(v@, i as int) is None,
        },
{
    let n = v.len();
    let j0 = if i < n && v[i] == '-' {
        i + 1
    } else {
        i
    };
    if !(j0 < n && digit_exec(v[j0])) {
        return None;
    }
    if v[j0] == '0' && j0 + 1 < n && digit_exec(v[j0 + 1]) {
        return None;
    }
    proof {
        lemma_end_digits_bounds(v@, j0 + 1);
    }
    let j1 = end_digits_exec(v, j0);
    let j2 = if j1 < n && v[j1] == '.' {
        if j1 + 1 < n && digit_exec(v[j1 + 1]) {
            end_digits_exec(v, j1 + 1)
        } else {
            return None;
        }
    } else {
        j1
    };
    let j3 = if j2 < n && (v[j2] == 'e' || v[j2] == 'E') {
        let je = if j2 + 1 < n && (v[j2 + 1] == '+' || v[j2 + 1] == '-') {
            j2 + 2
        } else {
            j2 + 1
        };
        if je < n && digit_exec(v[je]) {
            end_digits_exec(v, je)
        } else {
            return None;
        }
    } else {
        j2
    };
    Some(j3)
}

/// Executable mirror of `skip_value`.
pub fn skip_value_exec(v: &Vec<char>, i: usize) -> (r: Option<usize>)
    requires
        i <= v@.len(),
    ensures
        match r {
            Some(j) => skip_value(v@, i as int) == Some(j as int) && i < j <= v@.len(),
            None => skip_value(v@, i as int) is None,
        },
    decreases v@.len() - i, 0int,
{
    let n = v.len();
    if i >= n {
        return None;
    }
    let c = v[i];
    if c == '"' {
        match scan_string_exec(v, i) {
            Some((_w, j)) => Some(j),
            None => None,
        }
    } else if c == '-' || digit_exec(c) {
        skip_number_exec(v, i)
    } else if c == 't' && n - i >= 4 && v[i + 1] == 'r' && v[i + 2] == 'u' && v[i + 3] == 'e' {
        Some(i + 4)
    } else if c == 'f' && n - i >= 5 && v[i + 1] == 'a' && v[i + 2] == 'l' && v[i + 3] == 's' && v[i
        + 4] == 'e' {
        Some(i + 5)
    } else if c == 'n' && n - i >= 4 && v[i + 1] == 'u' && v[i + 2] == 'l' && v[i + 3] == 'l' {
        Some(i + 4)
    } else if c == '[' {
        let j = skip_spaces(v, i + 1);
        if j < n && v[j] == ']' {
            Some(j + 1)
        } else {
            skip_elems_exec(v, j)
        }
    } else if c == '{' {
        let j = skip_spaces(v, i + 1);
        if j < n && v[j] == '}' {
            Some(j + 1)
        } else {
            skip_members_exec(v, j)
        }
    } else {
        None
    }
}

/// Executable mirror of `skip_elems`.
fn skip_elems_exec(v: &Vec<char>, i: usize) -> (r: Option<usize>)
    requires
        i <= v@.len(),
    ensures
        match r {
            Some(j) => skip_elems(v@, i as int) == Some(j as int) && i < j <= v@.len(),
            None => skip_elems(v@, i as int) is None,
        },
    decreases v@.len() - i, 1int,
{
    let n = v.len();
    let j = match skip_value_exec(v, i) {
        None => {
            return None;
        },
        Some(j) => j,
    };
    let j2 = skip_spaces(v, j);
    if j2 < n && v[j2] == ',' {
        let i2 = skip_spaces(v, j2 + 1);
        skip_elems_exec(v, i2)
    } else if j2 < n && v[j2] == ']' {
        Some(j2 + 1)
    } else {
        None
    }
}

/// Executable mirror of `skip_members`.
fn skip_members_exec(v: &Vec<char>, i: usize) -> (r: Option<usize>)
    requires
        i <= v@.len(),
    ensures
        match r {
            Some(j) => skip_members(v@, i as int) == Some(j as int) && i < j <= v@.len(),
            None => skip_members(v@, i as int) is None,
        },
    decreases v@.len() - i, 1int,
{
    let n = v.len();
    let kr = match scan_string_exec(v, i) {
        None => {
            return None;
        },
        Some(kr) => kr,
    };
    let j = skip_spaces(v, kr.1);
    if !(j < n && v[j] == ':') {
        return None;
    }
    let j2 = skip_spaces(v, j + 1);
    let jv = match skip_value_exec(v, j2) {
        None => {
            return None;
        },
        Some(jv) => jv,
    };
    let j3 = skip_spaces(v, jv);
    if j3 < n && v[j3] == ',' {
        let i2 = skip_spaces(v, j3 + 1);
        skip_members_exec(v, i2)
    } else if j3 < n && v[j3] == '}' {
        Some(j3 + 1)
    } else {
        None
    }
}

/// Executable mirror of `is_hex`.
fn hex_exec(c: char) -> (r: bool)
    ensures
        r == is_hex(c),
{
    let u = c as u32;
    (48 <= u && u <= 57) || (97 <= u && u <= 102) || (65 <= u && u <= 70)
}

/// Executable mirror of `hex_val`.
fn hex_val_exec(c: char) -> (r: u32)
    requires
        is_hex(c),
    ensures
        r as int == hex_val(c),
        r <= 15,
{
    let u = c as u32;
    if 48 <= u && u <= 57 {
        u - 48
    } else if 97 <= u && u <= 102 {
        u - 87
    } else {
        u - 55
    }
}

/// Scans one scalar value starting at `i`.
pub fn scan_scalar_exec(v: &Vec<char>, i: usize) -> (r: Option<(Scalar, usize)>)
    requires
        i <= v@.len(),
    ensures
        match r {
            Some((sc, j)) => scan_scalar(v@, i as int) == Some((scalar_view(sc), j as int)) && i
                < j <= v@.len(),
            None => scan_scalar(v@, i as int) is None,
        },
{
    let n = v.len();
    if i >= n {
        return None;
    }
    let c = v[i];
    if c == '"' {
        match scan_string_exec(v, i) {
            Some((w, j)) => Some((Scalar::Text(w), j)),
            None => None,
        }
    } else if digit_exec(c) {
        match scan_uint_exec(v, i) {
            Some((x, j)) => Some((Scalar::Num(x), j)),
            None => None,
        }
    } else if c == 't' && n - i >= 4 && v[i + 1] == 'r' && v[i + 2] == 'u' && v[i + 3] == 'e' {
        Some((Scalar::Flag(true), i + 4))
    } else if c == 'f' && n - i >= 5 && v[i + 1] == 'a' && v[i + 2] == 'l' && v[i + 3] == 's' && v[i
        + 4] == 'e' {
        Some((Scalar::Flag(false), i + 5))
    } else if c == 'n' && n - i >= 4 && v[i + 1] == 'u' && v[i + 2] == 'l' && v[i + 3] == 'l' {
        Some((Scalar::Null, i + 4))
    } else {
        return None;
    }
}

} // verus!
