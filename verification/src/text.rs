//! Character-level text utilities: trimming of interactive input and
//! JSON string escaping. All functions are specified exactly over
//! `Seq<char>` views.

use vstd::prelude::*;

verus! {

/// The whitespace characters recognised between JSON tokens: exactly
/// the four the JSON grammar names.
pub open spec fn is_space(c: char) -> bool {
    c == ' ' || c == '\t' || c == '\n' || c == '\r'
}

/// The characters with the Unicode `White_Space` property: what
/// trimming of interactive input removes at either end.
pub open spec fn is_unicode_space(c: char) -> bool {
    let u = c as u32;
    (0x9 <= u && u <= 0xD) || u == 0x20 || u == 0x85 || u == 0xA0 || u == 0x1680 || (0x2000 <= u
        && u <= 0x200A) || u == 0x2028 || u == 0x2029 || u == 0x202F || u == 0x205F || u == 0x3000
}

/// Executable mirror of `is_unicode_space`.
pub fn is_unicode_space_exec(c: char) -> (r: bool)
    ensures
        r == is_unicode_space(c),
{
    let u = c as u32;
    (0x9 <= u && u <= 0xD) || u == 0x20 || u == 0x85 || u == 0xA0 || u == 0x1680 || (0x2000 <= u
        && u <= 0x200A) || u == 0x2028 || u == 0x2029 || u == 0x202F || u == 0x205F || u == 0x3000
}

/// First index at or after `i` holding a character that trimming
/// keeps (`s.len()` if there is none).
pub open spec fn trim_start(s: Seq<char>, i: int) -> int
    decreases s.len() - i,
{
    if i < 0 || i >= s.len() {
        s.len() as int
    } else if is_unicode_space(s[i]) {
        trim_start(s, i + 1)
    } else {
        i
    }
}

/// One past the last index before `j` holding a character that
/// trimming keeps (`0` if there is none).
pub open spec fn trim_end(s: Seq<char>, j: int) -> int
    decreases j,
{
    if j <= 0 || j > s.len() {
        0
    } else if is_unicode_space(s[j - 1]) {
        trim_end(s, j - 1)
    } else {
        j
    }
}

/// First index at or after `i` holding a non-whitespace character
/// (`s.len()` if there is none).
pub open spec fn first_non_space(s: Seq<char>, i: int) -> int
    decreases s.len() - i,
{
    if i < 0 || i >= s.len() {
        s.len() as int
    } else if is_space(s[i]) {
        first_non_space(s, i + 1)
    } else {
        i
    }
}

/// `s` with leading and trailing Unicode whitespace removed.
pub open spec fn trim_spec(s: Seq<char>) -> Seq<char> {
    let a = trim_start(s, 0);
    let b = trim_end(s, s.len() as int);
    if a < b {
        s.subrange(a, b)
    } else {
        Seq::empty()
    }
}

/// The characters of `s`, in order, as a vector.
pub fn str_chars(s: &str) -> (v: Vec<char>)
    ensures
        v@ == s@,
{
    let n = s.unicode_len();
    let mut v: Vec<char> = Vec::new();
    let mut i: usize = 0;
    while i < n
        invariant
            n == s@.len(),
            i <= n,
            v@ == s@.subrange(0, i as int),
        decreases n - i,
    {
        v.push(s.get_char(i));
        assert(v@ =~= s@.subrange(0, i + 1 as int));
        i += 1;
    }
    assert(v@ =~= s@);
    v
}

/// Relies on std's `FromIterator<char>` for `String`: collecting an
/// iterator of characters yields the string of exactly those
/// characters, in order.
#[verifier::external_body]
pub(crate) fn chars_to_string(v: &Vec<char>) -> (r: String)
    ensures
        r@ == v@,
{
    v.iter().collect()
}

/// Whether the characters of `v` are exactly those of `s`.
pub fn chars_eq_str(v: &Vec<char>, s: &str) -> (r: bool)
    ensures
        r == (v@ == s@),
{
    let n = s.unicode_len();
    if v.len() != n {
        assert(v@ != s@);
        return false;
    }
    let mut i: usize = 0;
    while i < n
        invariant
            n == s@.len(),
            v@.len() == n,
            i <= n,
            forall|k: int| 0 <= k < i ==> v@[k] == s@[k],
        decreases n - i,
    {
        if v[i] != s.get_char(i) {
            return false;
        }
        i += 1;
    }
    assert(v@ =~= s@);
    true
}

/// `s` with leading and trailing whitespace removed, as interactive
/// text input is normalised before use.
pub fn trimmed(s: &str) -> (r: String)
    ensures
        r@ == trim_spec(s@),
{
    let v = str_chars(s);
    let n = v.len();
    let mut a: usize = 0;
    while a < n && is_unicode_space_exec(v[a])
        invariant
            n == v@.len(),
            a <= n,
            v@ == s@,
            trim_start(s@, 0) == trim_start(s@, a as int),
        decreases n - a,
    {
        a += 1;
    }
    assert(trim_start(s@, a as int) == a as int || a == n);
    assert(trim_start(s@, 0) == a as int) by {
        if a < n {
        } else {
            assert(trim_start(s@, a as int) == s@.len());
        }
    }
    let mut b: usize = n;
    while b > a && is_unicode_space_exec(v[b - 1])
        invariant
            n == v@.len(),
            a <= b <= n,
            v@ == s@,
            a as int == trim_start(s@, 0),
            trim_end(s@, n as int) == trim_end(s@, b as int),
        decreases b,
    {
        b -= 1;
    }
    let mut out: Vec<char> = Vec::new();
    let mut i: usize = a;
    while i < b
        invariant
            a <= b <= n,
            n == v@.len(),
            v@ == s@,
            a <= i <= b,
            out@ == s@.subrange(a as int, i as int),
        decreases b - i,
    {
        out.push(v[i]);
        assert(out@ =~= s@.subrange(a as int, i + 1 as int));
        i += 1;
    }
    proof {
        let bi = trim_end(s@, b as int);
        if b > a {
            assert(!is_unicode_space(s@[b - 1]));
            assert(bi == b as int);
            assert(out@ =~= trim_spec(s@));
        } else {
            assert(b == a);
            lemma_trim_end_at_most(s@, b as int);
            assert(bi <= a as int);
            assert(out@ =~= Seq::<char>::empty());
            assert(trim_spec(s@) =~= Seq::<char>::empty());
        }
    }
    chars_to_string(&out)
}

/// `trim_end` never exceeds its starting point.
proof fn lemma_trim_end_at_most(s: Seq<char>, j: int)
    ensures
        trim_end(s, j) <= j || j < 0,
    decreases j,
{
    if j <= 0 || j > s.len() {
    } else if is_unicode_space(s[j - 1]) {
        lemma_trim_end_at_most(s, j - 1);
    }
}

/// Executable mirror of `is_space`.
pub fn is_space_exec(c: char) -> (r: bool)
    ensures
        r == is_space(c),
{
    c == ' ' || c == '\t' || c == '\n' || c == '\r'
}

/// The lower-case hexadecimal digit for a value below sixteen.
pub open spec fn hex_digit(n: int) -> char {
    if n == 0 { '0' } else if n == 1 { '1' } else if n == 2 { '2' } else if n == 3 { '3' }
    else if n == 4 { '4' } else if n == 5 { '5' } else if n == 6 { '6' } else if n == 7 { '7' }
    else if n == 8 { '8' } else if n == 9 { '9' } else if n == 10 { 'a' } else if n == 11 { 'b' }
    else if n == 12 { 'c' } else if n == 13 { 'd' } else if n == 14 { 'e' } else { 'f' }
}

/// How one character appears inside a JSON string literal: quotes,
/// backslashes and the named control characters get a short escape,
/// other control characters a `\u00XX` escape, everything else stands
/// as itself.
pub open spec fn escape_char(c: char) -> Seq<char> {
    if c == '"' {
        seq!['\\', '"']
    } else if c == '\\' {
        seq!['\\', '\\']
    } else if c == '\n' {
        seq!['\\', 'n']
    } else if c == '\r' {
        seq!['\\', 'r']
    } else if c == '\t' {
        seq!['\\', 't']
    } else if (c as u32) < 0x20 {
        seq!['\\', 'u', '0', '0', hex_digit((c as u32 / 16) as int), hex_digit((c as u32 % 16) as int)]
    } else {
        seq![c]
    }
}

/// The body of the JSON string literal denoting the first `i`
/// characters of `s`.
pub open spec fn escape_prefix(s: Seq<char>, i: int) -> Seq<char>
    decreases i,
{
    if i <= 0 || i > s.len() {
        Seq::empty()
    } else {
        escape_prefix(s, i - 1) + escape_char(s[i - 1])
    }
}

/// The body of the JSON string literal denoting `s`.
pub open spec fn escape_seq(s: Seq<char>) -> Seq<char> {
    escape_prefix(s, s.len() as int)
}

/// `escape_prefix` taken apart at the front: the first character's
/// escape, then the escaped remainder.
pub proof fn lemma_escape_prefix_front(x: Seq<char>, i: int)
    requires
        0 < i <= x.len(),
    ensures
        escape_prefix(x, i) == escape_char(x[0]) + escape_prefix(x.drop_first(), i - 1),
    decreases i,
{
    if i == 1 {
        assert(escape_prefix(x, 0) == Seq::<char>::empty());
        assert(escape_prefix(x.drop_first(), 0) == Seq::<char>::empty());
        assert(escape_prefix(x, 1) =~= escape_char(x[0]) + escape_prefix(x.drop_first(), 0));
    } else {
        lemma_escape_prefix_front(x, i - 1);
        assert(x.drop_first()[i - 2] == x[i - 1]);
        assert(escape_prefix(x, i) =~= escape_char(x[0]) + escape_prefix(x.drop_first(), i - 1));
    }
}

/// `escape_seq` taken apart at the front.
pub proof fn lemma_escape_seq_front(x: Seq<char>)
    requires
        x.len() > 0,
    ensures
        escape_seq(x) == escape_char(x[0]) + escape_seq(x.drop_first()),
{
    lemma_escape_prefix_front(x, x.len() as int);
}

/// Whether no character of `x` needs an escape inside a JSON string
/// literal.
pub open spec fn plain_text(x: Seq<char>) -> bool {
    forall|k: int|
        0 <= k < x.len() ==> (x[k] != '"' && x[k] != '\\' && x[k] as u32 >= 0x20)
}

/// A prefix of a plain text escapes to itself.
proof fn lemma_escape_prefix_plain(x: Seq<char>, i: int)
    requires
        plain_text(x),
        0 <= i <= x.len(),
    ensures
        escape_prefix(x, i) == x.subrange(0, i),
    decreases i,
{
    if i == 0 {
        assert(escape_prefix(x, 0) =~= x.subrange(0, 0));
    } else {
        lemma_escape_prefix_plain(x, i - 1);
        assert(escape_char(x[i - 1]) =~= seq![x[i - 1]]);
        assert(escape_prefix(x, i) =~= x.subrange(0, i));
    }
}

/// A plain text escapes to itself: such a value stands verbatim inside
/// the string literal denoting it.
pub proof fn lemma_escape_plain(x: Seq<char>)
    requires
        plain_text(x),
    ensures
        escape_seq(x) == x,
{
    lemma_escape_prefix_plain(x, x.len() as int);
    assert(x.subrange(0, x.len() as int) =~= x);
}

/// Executable mirror of `hex_digit`.
fn hex_digit_exec(n: u32) -> (r: char)
    requires
        n < 16,
    ensures
        r == hex_digit(n as int),
{
    match n {
        0 => '0', 1 => '1', 2 => '2', 3 => '3', 4 => '4', 5 => '5', 6 => '6', 7 => '7',
        8 => '8', 9 => '9', 10 => 'a', 11 => 'b', 12 => 'c', 13 => 'd', 14 => 'e', _ => 'f',
    }
}

/// Appends the JSON-escaped form of the characters of `s` to `out`.
pub fn escape_into(s: &Vec<char>, out: &mut Vec<char>)
    ensures
        final(out)@ == old(out)@ + escape_seq(s@),
{
    let n = s.len();
    let mut i: usize = 0;
    while i < n
        invariant
            n == s@.len(),
            i <= n,
            out@ == old(out)@ + escape_prefix(s@, i as int),
        decreases n - i,
    {
        let c = s[i];
        if c == '"' {
            out.push('\\');
            out.push('"');
        } else if c == '\\' {
            out.push('\\');
            out.push('\\');
        } else if c == '\n' {
            out.push('\\');
            out.push('n');
        } else if c == '\r' {
            out.push('\\');
            out.push('r');
        } else if c == '\t' {
            out.push('\\');
            out.push('t');
        } else if (c as u32) < 0x20 {
            out.push('\\');
            out.push('u');
            out.push('0');
            out.push('0');
            out.push(hex_digit_exec((c as u32) / 16));
            out.push(hex_digit_exec((c as u32) % 16));
        } else {
            out.push(c);
        }
        assert(out@ =~= old(out)@ + escape_prefix(s@, i + 1 as int));
        i += 1;
    }
}

} // verus!
