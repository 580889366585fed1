//! Character-level text utilities shared by the sanitizer, the parsers and
//! the formatters: conversions between `String` and `Vec<char>`, decimal
//! rendering and parsing of integers, and line splitting in the style of
//! `str::lines`.

use vstd::prelude::*;

verus! {

/// The decimal digit character for a value in 0..=9.
pub open spec fn digit_char(d: int) -> char {
    ((d + 48) as u8) as char
}

/// Decimal digits of an unsigned value, most significant first.
pub open spec fn spec_u64_digits(n: nat) -> Seq<char>
    decreases n,
{
    if n < 10 {
        seq![digit_char(n as int)]
    } else {
        spec_u64_digits(n / 10) + seq![digit_char((n % 10) as int)]
    }
}

/// Decimal rendering of a signed value: a minus sign, then the digits.
pub open spec fn spec_i64_str(n: int) -> Seq<char> {
    if n >= 0 {
        spec_u64_digits(n as nat)
    } else {
        seq!['-'] + spec_u64_digits((-n) as nat)
    }
}

/// All characters of the string, in order.
pub fn chars_of(s: &str) -> (r: Vec<char>)
    ensures
        r@ == s@,
{
    let n: usize = s.unicode_len();
    let mut v: Vec<char> = Vec::new();
    let mut i: usize = 0;
    while i < n
        invariant
            i <= n,
            n == s@.len(),
            v@ == s@.take(i as int),
        decreases n - i,
    {
        let c = s.get_char(i);
        v.push(c);
        proof {
            assert(s@.take(i + 1) =~= s@.take(i as int).push(s@[i as int]));
        }
        i += 1;
    }
    proof {
        assert(s@.take(n as int) =~= s@);
    }
    v
}

/// Relies on `String: FromIterator<char>`: collecting characters yields the
/// string made of exactly those characters in order.
#[verifier::external_body]
pub(crate) fn chars_to_string(v: &Vec<char>) -> (r: String)
    ensures
        r@ == v@,
{
    v.iter().collect()
}

/// Appends every character of `src` to `dst`.
pub fn push_chars(dst: &mut Vec<char>, src: &Vec<char>)
    ensures
        final(dst)@ == old(dst)@ + src@,
{
    let mut i: usize = 0;
    while i < src.len()
        invariant
            i <= src.len(),
            dst@ == old(dst)@ + src@.take(i as int),
        decreases src.len() - i,
    {
        dst.push(src[i]);
        proof {
            assert(src@.take(i + 1) =~= src@.take(i as int).push(src@[i as int]));
        }
        i += 1;
    }
    proof {
        assert(src@.take(src@.len() as int) =~= src@);
    }
}

/// Whether the character occurs in the sequence.
pub fn contains_char(v: &Vec<char>, c: char) -> (r: bool)
    ensures
        r == v@.contains(c),
{
    let mut i: usize = 0;
    while i < v.len()
        invariant
            i <= v.len(),
            forall|j: int| 0 <= j < i ==> v@[j] != c,
        decreases v.len() - i,
    {
        if v[i] == c {
            return true;
        }
        i += 1;
    }
    false
}

/// Decimal digits of `n`, most significant first.
pub fn u64_to_chars(n: u64) -> (r: Vec<char>)
    ensures
        r@ == spec_u64_digits(n as nat),
{
    let mut rev: Vec<char> = Vec::new();
    let mut m: u64 = n;
    while m >= 10
        invariant
            spec_u64_digits(n as nat) == spec_u64_digits(m as nat) + rev@.reverse(),
        decreases m,
    {
        let d: u8 = (m % 10) as u8;
        rev.push((48 + d) as char);
        proof {
            let old_rev = rev@.drop_last();
            assert(spec_u64_digits(m as nat) == spec_u64_digits((m as nat) / 10) + seq![
                digit_char((m as nat % 10) as int),
            ]);
            assert(rev@.reverse() =~= seq![digit_char((m as nat % 10) as int)]
                + old_rev.reverse());
            assert(spec_u64_digits(m as nat) + old_rev.reverse() =~= spec_u64_digits(
                (m as nat) / 10,
            ) + rev@.reverse());
        }
        m = m / 10;
    }
    let mut out: Vec<char> = Vec::new();
    let d0: u8 = m as u8;
    out.push((48 + d0) as char);
    let mut i: usize = rev.len();
    while i > 0
        invariant
            i <= rev.len(),
            out@ == seq![digit_char(m as int)] + rev@.skip(i as int).reverse(),
        decreases i,
    {
        i -= 1;
        out.push(rev[i]);
        proof {
            assert(rev@.skip(i as int).reverse() =~= rev@.skip(i + 1).reverse().push(
                rev@[i as int],
            ));
        }
    }
    proof {
        assert(rev@.skip(0) =~= rev@);
        assert(out@ =~= spec_u64_digits(m as nat) + rev@.reverse());
    }
    out
}

/// Decimal rendering of a signed value.
pub fn i64_to_chars(n: i64) -> (r: Vec<char>)
    ensures
        r@ == spec_i64_str(n as int),
{
    if n >= 0 {
        u64_to_chars(n as u64)
    } else {
        let wide: i128 = n as i128;
        let mag: u64 = (-wide) as u64;
        let digits = u64_to_chars(mag);
        let mut out: Vec<char> = Vec::new();
        out.push('-');
        push_chars(&mut out, &digits);
        proof {
            assert(out@ =~= seq!['-'] + spec_u64_digits((-(n as int)) as nat));
        }
        out
    }
}

/// Decimal rendering of `n` as a `String`.
pub fn usize_to_string(n: usize) -> (r: String)
    ensures
        r@ == spec_u64_digits(n as nat),
{
    let v = u64_to_chars(n as u64);
    chars_to_string(&v)
}

/// Decimal rendering of `n` as a `String`.
pub fn i64_to_string(n: i64) -> (r: String)
    ensures
        r@ == spec_i64_str(n as int),
{
    let v = i64_to_chars(n);
    chars_to_string(&v)
}

/// Index just past the first `'\n'` at or after `i`, or the length of `s`
/// when no newline follows.
pub open spec fn newline_end(s: Seq<char>, i: int) -> int
    decreases s.len() - i,
{
    if i < 0 || i >= s.len() {
        s.len() as int
    } else if s[i] == '\n' {
        i + 1
    } else {
        newline_end(s, i + 1)
    }
}

pub proof fn lemma_newline_end_bounds(s: Seq<char>, i: int)
    requires
        0 <= i <= s.len(),
    ensures
        i <= newline_end(s, i) <= s.len(),
        i < newline_end(s, i) || i == s.len(),
    decreases s.len() - i,
{
    if i < s.len() && s[i] != '\n' {
        lemma_newline_end_bounds(s, i + 1);
    }
}

/// One trailing carriage return is dropped, as `str::lines` does for a
/// `"\r\n"` terminator.
pub open spec fn strip_cr(t: Seq<char>) -> Seq<char> {
    if t.len() > 0 && t.last() == '\r' {
        t.drop_last()
    } else {
        t
    }
}

/// The lines of `s` in the manner of `str::lines`: split at `'\n'`, dropping
/// a `'\r'` that immediately precedes the split point; a final line ending
/// produces no empty last line.
pub open spec fn spec_lines_from(s: Seq<char>, i: int) -> Seq<Seq<char>>
    decreases s.len() - i,
    via spec_lines_from_decreases
{
    if i < 0 || i >= s.len() {
        Seq::empty()
    } else {
        let e = newline_end(s, i);
        if e == s.len() && s[e - 1] != '\n' {
            seq![s.subrange(i, e)]
        } else {
            seq![strip_cr(s.subrange(i, e - 1))] + spec_lines_from(s, e)
        }
    }
}

#[via_fn]
proof fn spec_lines_from_decreases(s: Seq<char>, i: int) {
    if 0 <= i < s.len() {
        lemma_newline_end_bounds(s, i);
    }
}

pub open spec fn spec_lines(s: Seq<char>) -> Seq<Seq<char>> {
    spec_lines_from(s, 0)
}

/// Splits into lines, as `str::lines` does.
pub fn lines_of(v: &Vec<char>) -> (r: Vec<Vec<char>>)
    ensures
        r@.map_values(|l: Vec<char>| l@) == spec_lines(v@),
{
    let mut out: Vec<Vec<char>> = Vec::new();
    let mut i: usize = 0;
    while i < v.len()
        invariant
            i <= v.len(),
            out@.map_values(|l: Vec<char>| l@) + spec_lines_from(v@, i as int) == spec_lines(
                v@,
            ),
        decreases v.len() - i,
    {
        let ghost prev_out = out@;
        let ghost e_spec = newline_end(v@, i as int);
        proof {
            lemma_newline_end_bounds(v@, i as int);
        }
        let mut line: Vec<char> = Vec::new();
        let mut j: usize = i;
        while j < v.len() && v[j] != '\n'
            invariant
                i <= j <= v.len(),
                newline_end(v@, j as int) == e_spec,
                i + line@.len() == j,
                line@ == v@.subrange(i as int, j as int),
                forall|k: int| i <= k < j ==> v@[k] != '\n',
            decreases v.len() - j,
        {
            line.push(v[j]);
            proof {
                assert(v@.subrange(i as int, j + 1) =~= v@.subrange(i as int, j as int).push(
                    v@[j as int],
                ));
            }
            j += 1;
        }
        if j < v.len() {
            // terminated by a newline at j
            proof {
                assert(e_spec == j + 1);
            }
            if line.len() > 0 && line[line.len() - 1] == '\r' {
                line.pop();
            }
            proof {
                assert(line@ =~= strip_cr(v@.subrange(i as int, e_spec - 1)));
            }
            out.push(line);
            i = j + 1;
        } else {
            // last line, no trailing newline
            proof {
                assert(e_spec == v@.len());
                assert(v@[e_spec - 1] != '\n');
                assert(line@ =~= v@.subrange(i as int, e_spec));
            }
            out.push(line);
            i = j;
        }
        proof {
            assert(out@.map_values(|l: Vec<char>| l@) =~= prev_out.map_values(
                |l: Vec<char>| l@,
            ).push(out@.last()@));
        }
    }
    proof {
        assert(out@.map_values(|l: Vec<char>| l@) + spec_lines_from(v@, v@.len() as int)
            =~= out@.map_values(|l: Vec<char>| l@));
    }
    out
}

/// The lines joined with a single `'\n'` between consecutive lines.
pub open spec fn spec_join_nl(ls: Seq<Seq<char>>) -> Seq<char>
    decreases ls.len(),
{
    if ls.len() == 0 {
        Seq::empty()
    } else if ls.len() == 1 {
        ls[0]
    } else {
        ls[0] + seq!['\n'] + spec_join_nl(ls.skip(1))
    }
}

/// Joins lines with `'\n'` separators.
pub fn join_nl(ls: &Vec<Vec<char>>) -> (r: Vec<char>)
    ensures
        r@ == spec_join_nl(ls@.map_values(|l: Vec<char>| l@)),
{
    let mut out: Vec<char> = Vec::new();
    if ls.len() == 0 {
        return out;
    }
    let ghost view = ls@.map_values(|l: Vec<char>| l@);
    let mut i: usize = ls.len();
    let mut tail: Vec<char> = Vec::new();
    while i > 1
        invariant
            1 <= i <= ls.len(),
            view.len() == ls@.len(),
            forall|k: int| 0 <= k < ls@.len() ==> view[k] == ls@[k]@,
            tail@ == spec_join_nl(view.skip(i as int - 1)).skip(view[i as int - 1].len() as int),
        decreases i,
    {
        i -= 1;
        let mut piece: Vec<char> = Vec::new();
        piece.push('\n');
        push_chars(&mut piece, &ls[i]);
        push_chars(&mut piece, &tail);
        tail = piece;
        proof {
            let sub = view.skip(i as int - 1);
            assert(sub[0] == view[i as int - 1]);
            assert(sub.skip(1) =~= view.skip(i as int));
            if sub.len() == 1 {
                assert(false);
            }
            assert(spec_join_nl(sub) =~= sub[0] + seq!['\n'] + spec_join_nl(sub.skip(1)));
            assert(spec_join_nl(view.skip(i as int)) =~= spec_join_nl(view.skip(i as int)).skip(
                0,
            ));
            assert(tail@ =~= spec_join_nl(sub).skip(sub[0].len() as int));
        }
    }
    push_chars(&mut out, &ls[0]);
    push_chars(&mut out, &tail);
    proof {
        let sub = view.skip(0);
        assert(sub =~= view);
        assert(out@ =~= spec_join_nl(view));
    }
    out
}

/// Appends every character of the literal to `dst`.
pub fn push_lit(dst: &mut Vec<char>, s: &str)
    ensures
        final(dst)@ == old(dst)@ + s@,
{
    let v = chars_of(s);
    push_chars(dst, &v);
}

/// A Unicode white-space character, as `char::is_whitespace` reports it.
pub open spec fn spec_is_ws(c: char) -> bool {
    c == ' ' || c == '\t' || c == '\n' || c == '\u{b}' || c == '\u{c}' || c == '\r' || c
        == '\u{85}' || c == '\u{a0}' || c == '\u{1680}' || ('\u{2000}' <= c && c <= '\u{200a}')
        || c == '\u{2028}' || c == '\u{2029}' || c == '\u{202f}' || c == '\u{205f}' || c
        == '\u{3000}'
}

/// Whether `c` is white space.
pub fn is_ws(c: char) -> (r: bool)
    ensures
        r == spec_is_ws(c),
{
    c == ' ' || c == '\t' || c == '\n' || c == '\u{b}' || c == '\u{c}' || c == '\r' || c
        == '\u{85}' || c == '\u{a0}' || c == '\u{1680}' || ('\u{2000}' <= c && c <= '\u{200a}')
        || c == '\u{2028}' || c == '\u{2029}' || c == '\u{202f}' || c == '\u{205f}' || c
        == '\u{3000}'
}

/// Every character is white space; true of the empty sequence.
pub open spec fn spec_all_ws(s: Seq<char>) -> bool {
    forall|i: int| 0 <= i < s.len() ==> spec_is_ws(#[trigger] s[i])
}

/// Whether the text is empty or all white space.
pub fn all_ws(v: &Vec<char>) -> (r: bool)
    ensures
        r == spec_all_ws(v@),
{
    let mut i: usize = 0;
    while i < v.len()
        invariant
            i <= v.len(),
            forall|j: int| 0 <= j < i ==> spec_is_ws(#[trigger] v@[j]),
        decreases v.len() - i,
    {
        if !is_ws(v[i]) {
            return false;
        }
        i += 1;
    }
    true
}

/// Whether two character vectors hold the same characters.
pub fn vec_eq_chars(a: &Vec<char>, b: &Vec<char>) -> (r: bool)
    ensures
        r == (a@ == b@),
{
    if a.len() != b.len() {
        return false;
    }
    let mut i: usize = 0;
    while i < a.len()
        invariant
            i <= a.len(),
            a@.len() == b@.len(),
            forall|j: int| 0 <= j < i ==> a@[j] == b@[j],
        decreases a.len() - i,
    {
        if a[i] != b[i] {
            return false;
        }
        i += 1;
    }
    proof {
        assert(a@ =~= b@);
    }
    true
}

/// Whether two strings hold the same characters.
pub fn str_eq_lit(a: &str, b: &str) -> (r: bool)
    ensures
        r == (a@ == b@),
{
    a.to_owned().eq(&b.to_owned())
}

/// A decimal digit.
pub open spec fn is_digit(c: char) -> bool {
    '0' <= c && c <= '9'
}

/// The value of a run of decimal digits, most significant first.
pub open spec fn digits_val(s: Seq<char>) -> int
    decreases s.len(),
{
    if s.len() == 0 {
        0
    } else {
        digits_val(s.drop_last()) * 10 + (s.last() as int - 48)
    }
}

pub open spec fn all_digits(s: Seq<char>) -> bool {
    forall|j: int| 0 <= j < s.len() ==> is_digit(#[trigger] s[j])
}

proof fn lemma_digits_val_nonneg(s: Seq<char>)
    requires
        all_digits(s),
    ensures
        digits_val(s) >= 0,
    decreases s.len(),
{
    if s.len() > 0 {
        assert(is_digit(s[s.len() - 1]));
        lemma_digits_val_nonneg(s.drop_last());
    }
}

proof fn lemma_digits_val_monotone(s: Seq<char>, i: int)
    requires
        all_digits(s),
        0 <= i <= s.len(),
    ensures
        digits_val(s) >= digits_val(s.take(i)),
    decreases s.len() - i,
{
    if i < s.len() {
        lemma_digits_val_monotone(s, i + 1);
        assert(s.take(i + 1).drop_last() =~= s.take(i));
        assert(s.take(i + 1).last() == s[i]);
        assert(is_digit(s[i]));
        lemma_digits_val_nonneg(s.take(i));
    } else {
        assert(s.take(i) =~= s);
    }
}

/// The digits of a signed decimal literal: everything after an optional
/// leading sign.
pub open spec fn sign_body(s: Seq<char>) -> Seq<char> {
    if s.len() > 0 && (s[0] == '+' || s[0] == '-') {
        s.skip(1)
    } else {
        s
    }
}

/// How `i32::from_str` reads a string: an optional sign, then one or more
/// decimal digits, the whole value within the `i32` range.
pub open spec fn spec_parse_i32(s: Seq<char>) -> Option<i32> {
    let body = sign_body(s);
    if body.len() == 0 || !all_digits(body) {
        None
    } else {
        let mag = digits_val(body);
        let val = if s.len() > 0 && s[0] == '-' {
            -mag
        } else {
            mag
        };
        if -0x8000_0000 <= val <= 0x7fff_ffff {
            Some(val as i32)
        } else {
            None
        }
    }
}

/// Reads a decimal `i32` exactly as `i32::from_str` would.
pub fn parse_i32(v: &Vec<char>) -> (r: Option<i32>)
    ensures
        r == spec_parse_i32(v@),
{
    let negative: bool = v.len() > 0 && v[0] == '-';
    let start: usize = if v.len() > 0 && (v[0] == '+' || v[0] == '-') {
        1
    } else {
        0
    };
    let ghost body = sign_body(v@);
    proof {
        assert(body =~= v@.skip(start as int));
    }
    if v.len() == start {
        return None;
    }
    let mut acc: u64 = 0;
    let mut i: usize = start;
    while i < v.len()
        invariant
            start <= i <= v.len(),
            start < v.len(),
            body == sign_body(v@),
            body == v@.skip(start as int),
            negative == (v@.len() > 0 && v@[0] == '-'),
            all_digits(body.take(i - start)),
            acc == digits_val(body.take(i - start)),
            acc <= 0x8000_0000,
        decreases v.len() - i,
    {
        let c = v[i];
        if c < '0' || c > '9' {
            proof {
                assert(body[i - start] == c);
                assert(!is_digit(body[i - start]));
                assert(!all_digits(body));
            }
            return None;
        }
        let d: u64 = (c as u8 - 48) as u64;
        acc = acc * 10 + d;
        proof {
            assert(body.take(i - start + 1).drop_last() =~= body.take(i - start));
            assert(body.take(i - start + 1).last() == body[i - start]);
        }
        i += 1;
        if acc > 0x8000_0000 {
            proof {
                if all_digits(body) {
                    lemma_digits_val_monotone(body, i - start);
                    assert(body.take(body.len() as int) =~= body);
                    assert(digits_val(body) >= digits_val(body.take(i - start)));
                    assert(digits_val(body) > 0x8000_0000);
                }
            }
            return None;
        }
    }
    proof {
        assert(body.take(body.len() as int) =~= body);
    }
    if negative {
        if acc == 0x8000_0000 {
            Some(i32::MIN)
        } else {
            Some(-((acc as u32) as i32))
        }
    } else {
        if acc == 0x8000_0000 {
            None
        } else {
            Some(acc as i32)
        }
    }
}

} // verus!

