//! Character-level text utilities.
//!
//! The rest of the crate states its contracts over sequences of characters;
//! this module supplies the conversions between `String` and `Vec<char>`,
//! decimal formatting, JSON string escaping, substring search and
//! placeholder replacement that those contracts are built from.

use vstd::prelude::*;
use vstd::string::StrSliceExecFns;

verus! {

/// The characters of `s`, one per element.
pub fn str_to_chars(s: &str) -> (r: Vec<char>)
    ensures
        r@ == s@,
{
    let n = s.unicode_len();
    let mut r: Vec<char> = Vec::new();
    let mut i: usize = 0;
    while i < n
        invariant
            n == s@.len(),
            i <= n,
            r@ == s@.subrange(0, i as int),
        decreases n - i,
    {
        r.push(s.get_char(i));
        i = i + 1;
        proof {
            assert(r@ =~= s@.subrange(0, i as int));
        }
    }
    proof {
        assert(r@ =~= s@);
    }
    r
}

/// Builds a `String` holding exactly the characters of `v`.
/// Relies on `String`'s `FromIterator` implementation, which collects an
/// iterator of characters into the string of those characters in order.
#[verifier::external_body]
pub fn chars_to_string(v: &Vec<char>) -> (r: String)
    ensures
        r@ == v@,
{
    v.iter().collect()
}

/// Appends every character of `s` to `r`.
pub fn push_all(r: &mut Vec<char>, s: &Vec<char>)
    ensures
        final(r)@ == old(r)@ + s@,
{
    let n = s.len();
    let mut i: usize = 0;
    while i < n
        invariant
            n == s@.len(),
            i <= n,
            r@ == old(r)@ + s@.subrange(0, i as int),
        decreases n - i,
    {
        r.push(s[i]);
        i = i + 1;
        proof {
            assert(r@ =~= old(r)@ + s@.subrange(0, i as int));
        }
    }
    proof {
        assert(r@ =~= old(r)@ + s@);
    }
}

/// Appends the characters of the string slice `s` to `r`.
pub fn push_str_chars(r: &mut Vec<char>, s: &str)
    ensures
        final(r)@ == old(r)@ + s@,
{
    let cs = str_to_chars(s);
    push_all(r, &cs);
}

/// The character for the decimal digit `d`.
pub open spec fn spec_digit(d: int) -> char
    recommends
        0 <= d < 10,
{
    ((48 + d) as u8) as char
}

/// The decimal representation of `n`, most significant digit first,
/// without leading zeros (`0` itself is the single character `0`).
pub open spec fn spec_dec(n: int) -> Seq<char>
    recommends
        n >= 0,
    decreases n,
{
    if n < 10 {
        seq![spec_digit(n)]
    } else {
        spec_dec(n / 10).push(spec_digit(n % 10))
    }
}

/// Appends the decimal representation of `n` to `r`.
pub fn push_decimal_u64(r: &mut Vec<char>, n: u64)
    ensures
        final(r)@ == old(r)@ + spec_dec(n as int),
    decreases n,
{
    if n >= 10 {
        push_decimal_u64(r, n / 10);
    }
    let d: u8 = (n % 10) as u8 + 48;
    r.push(d as char);
    proof {
        assert(r@ =~= old(r)@ + spec_dec(n as int));
    }
}

/// Appends the decimal representation of the port number `n` to `r`.
pub fn push_decimal_u16(r: &mut Vec<char>, n: u16)
    ensures
        final(r)@ == old(r)@ + spec_dec(n as int),
{
    push_decimal_u64(r, n as u64);
}

/// Every character of a decimal representation is a digit.
pub proof fn lemma_dec_digits(n: int)
    requires
        n >= 0,
    ensures
        forall|i: int|
            0 <= i < spec_dec(n).len() ==> 48 <= (#[trigger] spec_dec(n)[i]) as u32 <= 57,
    decreases n,
{
    if n < 10 {
        assert(spec_dec(n) == seq![spec_digit(n)]);
        assert(spec_digit(n) as u32 == 48 + n);
    } else {
        lemma_dec_digits(n / 10);
        assert(spec_digit(n % 10) as u32 == 48 + n % 10);
        assert forall|i: int| 0 <= i < spec_dec(n).len() implies 48 <= (#[trigger] spec_dec(
            n,
        )[i]) as u32 <= 57 by {
            if i < spec_dec(n / 10).len() {
                assert(spec_dec(n)[i] == spec_dec(n / 10)[i]);
            } else {
                assert(spec_dec(n)[i] == spec_digit(n % 10));
            }
        }
    }
}

/// The lower-case hexadecimal character for `d`.
pub open spec fn spec_hex_digit(d: int) -> char
    recommends
        0 <= d < 16,
{
    if d < 10 {
        spec_digit(d)
    } else {
        ((97 + (d - 10)) as u8) as char
    }
}

/// How one character is written inside a JSON string literal: quotes and
/// backslashes get a backslash escape, control characters a `\u00..` escape,
/// every other character stands for itself.
pub open spec fn spec_escape_char(c: char) -> Seq<char> {
    if c == '"' {
        seq!['\\', '"']
    } else if c == '\\' {
        seq!['\\', '\\']
    } else if (c as u32) < 32 {
        seq!['\\', 'u', '0', '0', spec_hex_digit((c as u32) as int / 16), spec_hex_digit(
            (c as u32) as int % 16,
        )]
    } else {
        seq![c]
    }
}

/// The body of a JSON string literal holding exactly the characters of `s`.
pub open spec fn spec_escape(s: Seq<char>) -> Seq<char>
    decreases s.len(),
{
    if s.len() == 0 {
        Seq::empty()
    } else {
        spec_escape(s.drop_last()) + spec_escape_char(s.last())
    }
}

/// The lower-case hexadecimal character for `d`.
fn hex_digit(d: u8) -> (c: char)
    requires
        d < 16,
    ensures
        c == spec_hex_digit(d as int),
{
    if d < 10 {
        (d + 48) as char
    } else {
        (d - 10 + 97) as char
    }
}

/// Appends the JSON string escaping of `s` to `r`.
pub fn push_escaped(r: &mut Vec<char>, s: &Vec<char>)
    ensures
        final(r)@ == old(r)@ + spec_escape(s@),
{
    let n = s.len();
    let mut i: usize = 0;
    while i < n
        invariant
            n == s@.len(),
            i <= n,
            r@ == old(r)@ + spec_escape(s@.subrange(0, i as int)),
        decreases n - i,
    {
        let c = s[i];
        if c == '"' {
            r.push('\\');
            r.push('"');
        } else if c == '\\' {
            r.push('\\');
            r.push('\\');
        } else if (c as u32) < 32 {
            let v = c as u32;
            r.push('\\');
            r.push('u');
            r.push('0');
            r.push('0');
            r.push(hex_digit((v / 16) as u8));
            r.push(hex_digit((v % 16) as u8));
        } else {
            r.push(c);
        }
        i = i + 1;
        proof {
            assert(s@.subrange(0, i as int).drop_last() =~= s@.subrange(0, i as int - 1));
            assert(s@.subrange(0, i as int).last() == s@[i as int - 1]);
            assert(r@ =~= old(r)@ + spec_escape(s@.subrange(0, i as int)));
        }
    }
    proof {
        assert(s@.subrange(0, n as int) =~= s@);
    }
}

/// Every character of an escaped string is outside the control range.
pub proof fn lemma_escape_no_control(s: Seq<char>)
    ensures
        forall|i: int|
            0 <= i < spec_escape(s).len() ==> (#[trigger] spec_escape(s)[i]) as u32 >= 32,
    decreases s.len(),
{
    if s.len() > 0 {
        lemma_escape_no_control(s.drop_last());
        let c = s.last();
        assert forall|i: int| 0 <= i < spec_escape_char(c).len() implies (
        #[trigger] spec_escape_char(c)[i]) as u32 >= 32 by {
            if c == '"' || c == '\\' {
            } else if (c as u32) < 32 {
                let hi = (c as u32) as int / 16;
                let lo = (c as u32) as int % 16;
                assert(spec_hex_digit(hi) as u32 >= 32);
                assert(spec_hex_digit(lo) as u32 >= 32);
            } else {
            }
        }
        assert forall|i: int| 0 <= i < spec_escape(s).len() implies (
        #[trigger] spec_escape(s)[i]) as u32 >= 32 by {
            if i < spec_escape(s.drop_last()).len() {
                assert(spec_escape(s)[i] == spec_escape(s.drop_last())[i]);
            } else {
                assert(spec_escape(s)[i] == spec_escape_char(c)[i - spec_escape(
                    s.drop_last(),
                ).len()]);
            }
        }
    }
}

/// `pat` occurs in `s` starting at index `i`.
pub open spec fn spec_contains_at(s: Seq<char>, i: int, pat: Seq<char>) -> bool {
    0 <= i && i + pat.len() <= s.len() && s.subrange(i, i + pat.len()) == pat
}

/// `pat` occurs somewhere in `s`.
pub open spec fn spec_contains(s: Seq<char>, pat: Seq<char>) -> bool {
    exists|i: int| spec_contains_at(s, i, pat)
}

/// An occurrence in the left part of a concatenation is an occurrence in
/// the whole.
pub proof fn lemma_contains_at_left(a: Seq<char>, b: Seq<char>, i: int, pat: Seq<char>)
    requires
        spec_contains_at(a, i, pat),
    ensures
        spec_contains_at(a + b, i, pat),
{
    assert((a + b).subrange(i, i + pat.len()) =~= a.subrange(i, i + pat.len()));
}

/// An occurrence in the right part of a concatenation is an occurrence in
/// the whole, shifted by the left part's length.
pub proof fn lemma_contains_at_right(a: Seq<char>, b: Seq<char>, i: int, pat: Seq<char>)
    requires
        spec_contains_at(b, i, pat),
    ensures
        spec_contains_at(a + b, a.len() + i, pat),
{
    assert((a + b).subrange(a.len() + i, a.len() + i + pat.len()) =~= b.subrange(
        i,
        i + pat.len(),
    ));
}

/// Every text occurs in itself at its start.
pub proof fn lemma_contains_at_self(pat: Seq<char>)
    ensures
        spec_contains_at(pat, 0, pat),
{
    assert(pat.subrange(0, pat.len() as int) =~= pat);
}

/// Whether `pat` occurs in `s` starting at index `i`.
fn match_at(s: &Vec<char>, i: usize, pat: &Vec<char>) -> (r: bool)
    requires
        i + pat@.len() <= s@.len(),
    ensures
        r == spec_contains_at(s@, i as int, pat@),
{
    let n = s.len();
    let m = pat.len();
    let mut j: usize = 0;
    while j < m
        invariant
            n == s@.len(),
            m == pat@.len(),
            i + m <= n,
            j <= m,
            forall|k: int| 0 <= k < j ==> s@[i + k] == pat@[k],
        decreases m - j,
    {
        if s[i + j] != pat[j] {
            proof {
                assert(s@.subrange(i as int, i + m) != pat@) by {
                    assert(s@.subrange(i as int, i + m)[j as int] == s@[i + j]);
                }
            }
            return false;
        }
        j = j + 1;
    }
    proof {
        assert(s@.subrange(i as int, i + m) =~= pat@);
    }
    true
}

/// Whether `pat` occurs anywhere in `s`.
pub fn contains_seq(s: &Vec<char>, pat: &Vec<char>) -> (r: bool)
    ensures
        r == spec_contains(s@, pat@),
{
    let n = s.len();
    let m = pat.len();
    if m == 0 {
        proof {
            assert(s@.subrange(0, 0) =~= pat@);
            assert(spec_contains_at(s@, 0, pat@));
        }
        return true;
    }
    if m > n {
        proof {
            assert(forall|k: int| !spec_contains_at(s@, k, pat@));
        }
        return false;
    }
    let mut i: usize = 0;
    while i <= n - m
        invariant
            n == s@.len(),
            m == pat@.len(),
            1 <= m <= n,
            i <= n - m + 1,
            forall|k: int| 0 <= k < i ==> !spec_contains_at(s@, k, pat@),
        decreases n - i,
    {
        if match_at(s, i, pat) {
            return true;
        }
        i = i + 1;
    }
    proof {
        assert(forall|k: int| k + pat@.len() > s@.len() ==> !spec_contains_at(s@, k, pat@));
    }
    false
}

/// Whether `pat` occurs anywhere in the string `s`.
pub fn str_contains(s: &str, pat: &str) -> (r: bool)
    ensures
        r == spec_contains(s@, pat@),
{
    let sv = str_to_chars(s);
    let pv = str_to_chars(pat);
    contains_seq(&sv, &pv)
}

/// `s` with every occurrence of `pat` replaced by `rep`, scanning left to
/// right and never rescanning replaced text.
pub open spec fn spec_replace(s: Seq<char>, pat: Seq<char>, rep: Seq<char>) -> Seq<char>
    recommends
        pat.len() > 0,
    decreases s.len(),
{
    if s.len() == 0 {
        Seq::empty()
    } else if pat.len() > 0 && s.len() >= pat.len() && s.subrange(0, pat.len() as int) == pat {
        rep + spec_replace(s.skip(pat.len() as int), pat, rep)
    } else {
        seq![s[0]] + spec_replace(s.skip(1), pat, rep)
    }
}

/// Replaces every occurrence of `pat` in `s` by `rep`.
pub fn replace_all(s: &Vec<char>, pat: &Vec<char>, rep: &Vec<char>) -> (r: Vec<char>)
    requires
        pat@.len() > 0,
    ensures
        r@ == spec_replace(s@, pat@, rep@),
{
    let n = s.len();
    let m = pat.len();
    let mut out: Vec<char> = Vec::new();
    let mut i: usize = 0;
    proof {
        assert(s@.skip(0) =~= s@);
    }
    while i < n
        invariant
            n == s@.len(),
            m == pat@.len(),
            m > 0,
            i <= n,
            spec_replace(s@, pat@, rep@) == out@ + spec_replace(s@.skip(i as int), pat@, rep@),
        decreases n - i,
    {
        let ghost rest = s@.skip(i as int);
        if n - i >= m && match_at(s, i, pat) {
            proof {
                assert(rest.subrange(0, m as int) =~= s@.subrange(i as int, i + m));
                assert(rest.skip(m as int) =~= s@.skip(i + m));
            }
            push_all(&mut out, rep);
            i = i + m;
        } else {
            proof {
                if rest.len() >= m {
                    assert(rest.subrange(0, m as int) =~= s@.subrange(i as int, i + m));
                }
                assert(rest[0] == s@[i as int]);
                assert(rest.skip(1) =~= s@.skip(i as int + 1));
            }
            out.push(s[i]);
            i = i + 1;
        }
    }
    proof {
        assert(s@.skip(n as int) =~= Seq::<char>::empty());
    }
    out
}

/// How many times the character `c` occurs in `s`.
pub open spec fn spec_count_char(s: Seq<char>, c: char) -> nat
    decreases s.len(),
{
    if s.len() == 0 {
        0
    } else {
        spec_count_char(s.drop_last(), c) + if s.last() == c {
            1nat
        } else {
            0nat
        }
    }
}

/// The index of the first occurrence of `c` in `s`, or `s.len()` when `c`
/// does not occur.
pub open spec fn spec_index_of(s: Seq<char>, c: char) -> int
    decreases s.len(),
{
    if s.len() == 0 {
        0
    } else if s[0] == c {
        0
    } else {
        1 + spec_index_of(s.skip(1), c)
    }
}

/// The first-occurrence index is in range, hits `c` when it is a real index,
/// and nothing before it is `c`.
pub proof fn lemma_index_of_properties(s: Seq<char>, c: char)
    ensures
        0 <= spec_index_of(s, c) <= s.len(),
        spec_index_of(s, c) < s.len() ==> s[spec_index_of(s, c)] == c,
        forall|j: int| 0 <= j < spec_index_of(s, c) ==> s[j] != c,
    decreases s.len(),
{
    if s.len() > 0 && s[0] != c {
        lemma_index_of_properties(s.skip(1), c);
        let k = spec_index_of(s, c);
        assert forall|j: int| 0 <= j < k implies s[j] != c by {
            if j > 0 {
                assert(s.skip(1)[j - 1] == s[j]);
            }
        }
    }
}

/// `s` holds no line terminator.
pub open spec fn spec_no_newline(s: Seq<char>) -> bool {
    forall|i: int| 0 <= i < s.len() ==> s[i] != '\n'
}

/// Concatenation keeps text free of line terminators.
pub proof fn lemma_no_newline_concat(a: Seq<char>, b: Seq<char>)
    requires
        spec_no_newline(a),
        spec_no_newline(b),
    ensures
        spec_no_newline(a + b),
{
    assert forall|i: int| 0 <= i < (a + b).len() implies (a + b)[i] != '\n' by {
        if i < a.len() {
            assert((a + b)[i] == a[i]);
        } else {
            assert((a + b)[i] == b[i - a.len()]);
        }
    }
}

/// A decimal representation holds no line terminator.
pub proof fn lemma_dec_no_newline(n: int)
    requires
        n >= 0,
    ensures
        spec_no_newline(spec_dec(n)),
{
    lemma_dec_digits(n);
    assert('\n' as u32 == 10);
}

/// Every character of `s` is a decimal digit.
pub open spec fn spec_all_digits(s: Seq<char>) -> bool {
    forall|i: int| 0 <= i < s.len() ==> 48 <= (#[trigger] s[i]) as u32 <= 57
}

/// The number a digit string spells, most significant digit first.
pub open spec fn spec_digits_value(s: Seq<char>) -> int
    decreases s.len(),
{
    if s.len() == 0 {
        0
    } else {
        spec_digits_value(s.drop_last()) * 10 + (s.last() as u32 - 48)
    }
}

/// A digit string's value is at least its prefix's value.
proof fn lemma_digits_value_mono(s: Seq<char>, i: int)
    requires
        spec_all_digits(s),
        0 <= i <= s.len(),
    ensures
        spec_digits_value(s) >= spec_digits_value(s.subrange(0, i)),
        spec_digits_value(s) >= 0,
    decreases s.len() - i,
{
    if i == s.len() {
        assert(s.subrange(0, i) =~= s);
        lemma_digits_value_nonneg(s);
    } else {
        lemma_digits_value_mono(s, i + 1);
        let p = s.subrange(0, i);
        let q = s.subrange(0, i + 1);
        assert(q.drop_last() =~= p);
        assert(q.last() == s[i]);
        lemma_digits_value_nonneg(p);
        assert(spec_digits_value(q) == spec_digits_value(p) * 10 + (s[i] as u32 - 48));
        assert(spec_digits_value(q) >= spec_digits_value(p));
    }
}

/// A digit string's value is not negative.
proof fn lemma_digits_value_nonneg(s: Seq<char>)
    requires
        spec_all_digits(s),
    ensures
        spec_digits_value(s) >= 0,
    decreases s.len(),
{
    if s.len() > 0 {
        assert(spec_all_digits(s.drop_last())) by {
            assert(forall|i: int|
                0 <= i < s.len() - 1 ==> s.drop_last()[i] == #[trigger] s[i]);
        }
        lemma_digits_value_nonneg(s.drop_last());
    }
}

/// A decimal representation spells the number it was made from.
proof fn lemma_dec_value(n: int)
    requires
        n >= 0,
    ensures
        spec_digits_value(spec_dec(n)) == n,
    decreases n,
{
    if n < 10 {
        assert(spec_dec(n) == seq![spec_digit(n)]);
        assert(spec_digit(n) as u32 == 48 + n);
        let s = seq![spec_digit(n)];
        assert(s.len() == 1);
        assert(s.last() == spec_digit(n));
        assert(s.drop_last() =~= Seq::<char>::empty());
        assert(spec_digits_value(Seq::<char>::empty()) == 0);
        assert(spec_digits_value(s) == spec_digits_value(s.drop_last()) * 10 + (s.last() as u32
            - 48));
    } else {
        lemma_dec_value(n / 10);
        let s = spec_dec(n);
        assert(s.drop_last() =~= spec_dec(n / 10));
        assert(s.last() == spec_digit(n % 10));
        assert(spec_digit(n % 10) as u32 == 48 + n % 10);
    }
}

/// Formatting and parsing agree on ports: the decimal text of any port is
/// nonempty, all digits, and spells the port back, so the port parser
/// accepts exactly it.
pub proof fn lemma_port_text_round_trip(p: u16)
    ensures
        spec_dec(p as int).len() > 0,
        spec_all_digits(spec_dec(p as int)),
        spec_digits_value(spec_dec(p as int)) == p,
{
    lemma_dec_digits(p as int);
    lemma_dec_value(p as int);
}

/// Parses a decimal port number: the digits' value when `s` is a nonempty
/// all-digit string whose value fits a port, and nothing otherwise.
pub fn parse_port(s: &str) -> (r: Option<u16>)
    ensures
        r.is_some() <==> (s@.len() > 0 && spec_all_digits(s@) && spec_digits_value(s@) <= 65535),
        r.is_some() ==> r.unwrap() as int == spec_digits_value(s@),
{
    let cs = str_to_chars(s);
    let n = cs.len();
    if n == 0 {
        return None;
    }
    let mut acc: u32 = 0;
    let mut i: usize = 0;
    while i < n
        invariant
            cs@ == s@,
            n == cs@.len(),
            i <= n,
            spec_all_digits(cs@.subrange(0, i as int)),
            acc == spec_digits_value(cs@.subrange(0, i as int)),
            acc <= 65535,
        decreases n - i,
    {
        let ghost pre = cs@.subrange(0, i as int);
        let c = cs[i];
        let code = c as u32;
        if !(48 <= code && code <= 57) {
            proof {
                assert(s@[i as int] == c);
                assert(!spec_all_digits(s@));
            }
            return None;
        }
        let d = code - 48;
        let next: u32 = acc * 10 + d;
        i = i + 1;
        proof {
            let cur = cs@.subrange(0, i as int);
            assert(cur.drop_last() =~= pre);
            assert(cur.last() == cs@[i - 1]);
            assert(next == spec_digits_value(cur));
        }
        if next > 65535 {
            proof {
                if spec_all_digits(s@) {
                    lemma_digits_value_mono(s@, i as int);
                    assert(spec_digits_value(s@) >= spec_digits_value(s@.subrange(0, i as int)));
                    assert(spec_digits_value(s@) > 65535);
                }
            }
            return None;
        }
        acc = next;
    }
    proof {
        assert(cs@.subrange(0, n as int) =~= cs@);
    }
    Some(acc as u16)
}

/// An escaped JSON string body holds no line terminator.
pub proof fn lemma_escape_no_newline(s: Seq<char>)
    ensures
        spec_no_newline(spec_escape(s)),
{
    lemma_escape_no_control(s);
    assert('\n' as u32 == 10);
}

} // verus!
