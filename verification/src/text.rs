//! Character-level text utilities shared by the matcher, executor and relay:
//! conversion between strings and character vectors, substring tests,
//! leftmost non-overlapping replacement, and decimal reading and rendering
//! of unsigned identifiers.

use vstd::prelude::*;

verus! {

/// The characters of a string slice, collected for constant-time indexing.
pub fn to_chars(s: &str) -> (v: Vec<char>)
    ensures
        v@ == s@,
{
    let mut v: Vec<char> = Vec::new();
    for c in it: s.chars()
        invariant
            it.seq() == s@,
            v@ =~= it.seq().take(it.index() as int),
    {
        v.push(c);
    }
    assert(v@ =~= s@);
    v
}

/// Relies on `String: FromIterator<char>`: collecting an iterator of chars
/// yields a string holding exactly those characters in order.
#[verifier::external_body]
pub fn from_chars(v: &Vec<char>) -> (s: String)
    ensures
        s@ == v@,
{
    v.iter().collect()
}

/// Whether the characters of `a` equal the characters of `b`.
pub fn chars_eq(a: &Vec<char>, b: &Vec<char>) -> (r: bool)
    ensures
        r == (a@ == b@),
{
    if a.len() != b.len() {
        assert(a@ != b@);
        return false;
    }
    let mut i: usize = 0;
    while i < a.len()
        invariant
            i <= a.len(),
            a@.len() == b@.len(),
            forall|j: int| 0 <= j < i ==> a@[j] == b@[j],
        decreases a@.len() - i,
    {
        if a[i] != b[i] {
            assert(a@ != b@);
            return false;
        }
        i += 1;
    }
    assert(a@ =~= b@);
    true
}

/// Whether `pat` occurs in `s` starting at position `i`.
pub fn occurs_at(s: &Vec<char>, pat: &Vec<char>, i: usize) -> (r: bool)
    requires
        i + pat@.len() <= s@.len(),
    ensures
        r == (s@.subrange(i as int, i + pat@.len()) == pat@),
{
    let s_len = s.len();
    let p_len = pat.len();
    let mut j: usize = 0;
    while j < p_len
        invariant
            j <= p_len == pat@.len(),
            s_len == s@.len(),
            i + pat@.len() <= s@.len(),
            forall|k: int| 0 <= k < j ==> s@[i + k] == pat@[k],
        decreases pat@.len() - j,
    {
        if s[i + j] != pat[j] {
            assert(s@.subrange(i as int, i + pat@.len())[j as int] == s@[i + j]);
            return false;
        }
        j += 1;
    }
    assert(s@.subrange(i as int, i + pat@.len()) =~= pat@);
    true
}

/// The result of replacing, left to right and without overlap, every
/// occurrence of `pat` in `s` by `rep`. A pattern without characters
/// replaces nothing.
pub open spec fn replace_all_spec(s: Seq<char>, pat: Seq<char>, rep: Seq<char>) -> Seq<char>
    decreases s.len(),
{
    if pat.len() == 0 || s.len() < pat.len() {
        s
    } else if s.take(pat.len() as int) == pat {
        rep + replace_all_spec(s.skip(pat.len() as int), pat, rep)
    } else {
        seq![s[0]] + replace_all_spec(s.skip(1), pat, rep)
    }
}

/// Replaces every occurrence of `pat` in `s` by `rep`, left to right and
/// without overlap.
pub fn replace_all(s: &Vec<char>, pat: &Vec<char>, rep: &Vec<char>) -> (r: Vec<char>)
    requires
        pat@.len() > 0,
    ensures
        r@ == replace_all_spec(s@, pat@, rep@),
{
    let mut out: Vec<char> = Vec::new();
    let mut i: usize = 0;
    proof {
        assert(s@.skip(0) =~= s@);
        assert(Seq::<char>::empty() + replace_all_spec(s@, pat@, rep@) =~= replace_all_spec(
            s@,
            pat@,
            rep@,
        ));
    }
    while i < s.len()
        invariant
            i <= s@.len(),
            pat@.len() > 0,
            replace_all_spec(s@, pat@, rep@) == out@ + replace_all_spec(
                s@.skip(i as int),
                pat@,
                rep@,
            ),
        decreases s@.len() - i,
    {
        let ghost rest = s@.skip(i as int);
        if pat.len() <= s.len() - i && occurs_at(s, pat, i) {
            proof {
                assert(rest.take(pat@.len() as int) =~= s@.subrange(i as int, i + pat@.len()));
                assert(rest.skip(pat@.len() as int) =~= s@.skip(i + pat@.len()));
            }
            out.extend_from_slice(rep.as_slice());
            i += pat.len();
        } else {
            proof {
                if pat@.len() <= rest.len() {
                    assert(rest.take(pat@.len() as int) =~= s@.subrange(
                        i as int,
                        i + pat@.len(),
                    ));
                }
                assert(rest.skip(1) =~= s@.skip(i + 1));
                assert(seq![rest[0]] =~= s@.subrange(i as int, i + 1));
            }
            out.push(s[i]);
            i += 1;
        }
        proof {
            assert(out@ + replace_all_spec(s@.skip(i as int), pat@, rep@) =~= replace_all_spec(
                s@,
                pat@,
                rep@,
            ));
        }
    }
    proof {
        assert(s@.skip(i as int) =~= Seq::<char>::empty());
        assert(out@ =~= replace_all_spec(s@, pat@, rep@));
    }
    out
}

/// Whether `c` is a decimal digit: its code point lies between those of
/// `'0'` and `'9'`.
pub open spec fn is_dec_digit(c: char) -> bool {
    48 <= c as int <= 57
}

/// The numeric value of a decimal digit character.
pub open spec fn digit_val(c: char) -> int {
    c as int - 48
}

/// Whether every character of `s` is a decimal digit.
pub open spec fn all_dec_digits(s: Seq<char>) -> bool {
    forall|i: int| 0 <= i < s.len() ==> is_dec_digit(#[trigger] s[i])
}

/// The value of a sequence of decimal digit characters, most significant
/// first.
pub open spec fn dec_val(s: Seq<char>) -> int
    decreases s.len(),
{
    if s.len() == 0 {
        0
    } else {
        dec_val(s.drop_last()) * 10 + digit_val(s.last())
    }
}

/// The digit part of a decimal integer literal: everything after one
/// optional leading plus sign.
pub open spec fn dec_digits_part(s: Seq<char>) -> Seq<char> {
    if s.len() > 0 && s[0] == '+' {
        s.skip(1)
    } else {
        s
    }
}

/// Whether `s` reads as a decimal `u64`: an optional leading plus sign,
/// one or more decimal digits, and a value that fits in the type.
pub open spec fn parses_as_u64(s: Seq<char>) -> bool {
    let d = dec_digits_part(s);
    d.len() > 0 && all_dec_digits(d) && dec_val(d) <= u64::MAX
}

/// The `u64` value that `s` reads as.
pub open spec fn u64_val(s: Seq<char>) -> u64 {
    dec_val(dec_digits_part(s)) as u64
}

proof fn lemma_dec_val_bounds(s: Seq<char>)
    requires
        all_dec_digits(s),
    ensures
        0 <= dec_val(s),
        s.len() > 0 ==> forall|i: int|
            0 <= i < s.len() ==> dec_val(#[trigger] s.take(i)) <= dec_val(s),
    decreases s.len(),
{
    if s.len() > 0 {
        assert(all_dec_digits(s.drop_last())) by {
            assert(forall|i: int| 0 <= i < s.len() - 1 ==> is_dec_digit(#[trigger] s[i]));
        }
        lemma_dec_val_bounds(s.drop_last());
        assert(is_dec_digit(s.last()));
        assert forall|i: int| 0 <= i < s.len() implies dec_val(#[trigger] s.take(i)) <= dec_val(
            s,
        ) by {
            assert(s.take(i) =~= s.drop_last().take(i));
            if s.len() == 1 {
                assert(dec_val(s.take(0)) == 0);
            }
        }
    }
}

/// The numeric value of a decimal digit character, or nothing for any
/// other character.
pub fn digit_of(c: char) -> (r: Option<u64>)
    ensures
        is_dec_digit(c) ==> r == Some(digit_val(c) as u64),
        !is_dec_digit(c) ==> r is None,
{
    match c {
        '0' => Some(0),
        '1' => Some(1),
        '2' => Some(2),
        '3' => Some(3),
        '4' => Some(4),
        '5' => Some(5),
        '6' => Some(6),
        '7' => Some(7),
        '8' => Some(8),
        '9' => Some(9),
        _ => None,
    }
}

/// Reads `s` as a decimal `u64` the way the standard library does: an
/// optional leading plus sign, then decimal digits; anything else, or a
/// value over `u64::MAX`, reads as nothing.
pub fn parse_u64(s: &Vec<char>) -> (r: Option<u64>)
    ensures
        parses_as_u64(s@) ==> r == Some(u64_val(s@)),
        !parses_as_u64(s@) ==> r is None,
{
    let start: usize = if s.len() > 0 && s[0] == '+' {
        1
    } else {
        0
    };
    let ghost digits = dec_digits_part(s@);
    proof {
        assert(digits =~= s@.skip(start as int));
    }
    if s.len() == start {
        return None;
    }
    let mut acc: u64 = 0;
    let mut i: usize = start;
    while i < s.len()
        invariant
            start <= i <= s@.len(),
            digits == dec_digits_part(s@),
            digits == s@.skip(start as int),
            digits.len() == s@.len() - start,
            all_dec_digits(digits.take(i - start)),
            acc == dec_val(digits.take(i - start)),
        decreases s@.len() - i,
    {
        let c = s[i];
        proof {
            assert(digits[i - start] == s@[i as int]);
        }
        let d = match digit_of(c) {
            Some(d) => d,
            None => {
                proof {
                    assert(!is_dec_digit(digits[i - start]));
                    assert(!all_dec_digits(digits));
                }
                return None;
            },
        };
        proof {
            assert(is_dec_digit(digits[i - start]));
            assert(d == digit_val(digits[i - start]));
        }
        if acc > (u64::MAX - d) / 10 {
            proof {
                assert(acc * 10 + d > u64::MAX) by (nonlinear_arith)
                    requires
                        acc > (u64::MAX - d) / 10,
                        d <= 9,
                        acc >= 0,
                ;
                assert(digits.take(i - start + 1).drop_last() =~= digits.take(i - start));
                assert(digits.take(i - start + 1).last() == digits[i - start]);
                assert(dec_val(digits.take(i - start + 1)) > u64::MAX);
                if parses_as_u64(s@) {
                    lemma_dec_val_bounds(digits);
                    assert(dec_val(digits.take(i - start + 1)) <= dec_val(digits));
                    assert(false);
                }
            }
            return None;
        }
        proof {
            assert(acc * 10 + d <= u64::MAX) by (nonlinear_arith)
                requires
                    acc <= (u64::MAX - d) / 10,
                    0 <= d <= 9,
                    acc >= 0,
            ;
            assert(digits.take(i - start + 1).drop_last() =~= digits.take(i - start));
            assert(digits.take(i - start + 1).last() == digits[i - start]);
        }
        acc = acc * 10 + d;
        i += 1;
        proof {
            assert(all_dec_digits(digits.take(i - start))) by {
                assert(forall|k: int|
                    0 <= k < i - start ==> is_dec_digit(#[trigger] digits.take(i - start)[k]));
            }
        }
    }
    proof {
        assert(digits.take(i - start) =~= digits);
        assert(parses_as_u64(s@));
    }
    Some(acc)
}

/// The decimal digit character for a value below ten.
pub open spec fn digit_char(d: int) -> char {
    if d == 0 {
        '0'
    } else if d == 1 {
        '1'
    } else if d == 2 {
        '2'
    } else if d == 3 {
        '3'
    } else if d == 4 {
        '4'
    } else if d == 5 {
        '5'
    } else if d == 6 {
        '6'
    } else if d == 7 {
        '7'
    } else if d == 8 {
        '8'
    } else {
        '9'
    }
}

/// The decimal rendering of `n`, most significant digit first, without
/// leading zeros (zero itself renders as one digit).
pub open spec fn dec_chars_of(n: int) -> Seq<char>
    decreases n,
{
    if n < 10 {
        seq![digit_char(n)]
    } else {
        dec_chars_of(n / 10) + seq![digit_char(n % 10)]
    }
}

fn digit_char_exec(d: u64) -> (c: char)
    requires
        d < 10,
    ensures
        c == digit_char(d as int),
{
    if d == 0 {
        '0'
    } else if d == 1 {
        '1'
    } else if d == 2 {
        '2'
    } else if d == 3 {
        '3'
    } else if d == 4 {
        '4'
    } else if d == 5 {
        '5'
    } else if d == 6 {
        '6'
    } else if d == 7 {
        '7'
    } else if d == 8 {
        '8'
    } else {
        '9'
    }
}

/// Renders `n` in decimal, most significant digit first.
pub fn dec_chars(n: u64) -> (v: Vec<char>)
    ensures
        v@ == dec_chars_of(n as int),
    decreases n,
{
    if n < 10 {
        let mut v: Vec<char> = Vec::new();
        v.push(digit_char_exec(n));
        assert(v@ =~= dec_chars_of(n as int));
        v
    } else {
        let mut v = dec_chars(n / 10);
        v.push(digit_char_exec(n % 10));
        assert(v@ =~= dec_chars_of(n as int));
        v
    }
}

/// The chat platform's textual reference to a user.
pub open spec fn mention_token(id: u64) -> Seq<char> {
    seq!['<', '@'] + dec_chars_of(id as int) + seq!['>']
}

/// Renders the chat platform's textual reference to a user.
pub fn mention_reference(id: u64) -> (v: Vec<char>)
    ensures
        v@ == mention_token(id),
{
    let mut v: Vec<char> = Vec::new();
    v.push('<');
    v.push('@');
    let digits = dec_chars(id);
    v.extend_from_slice(digits.as_slice());
    v.push('>');
    assert(v@ =~= mention_token(id));
    v
}

/// Whether `x` occurs in `v`.
pub fn contains_u64(v: &Vec<u64>, x: u64) -> (r: bool)
    ensures
        r == v@.contains(x),
{
    let mut i: usize = 0;
    while i < v.len()
        invariant
            i <= v@.len(),
            forall|j: int| 0 <= j < i ==> v@[j] != x,
        decreases v@.len() - i,
    {
        if v[i] == x {
            return true;
        }
        i += 1;
    }
    assert(!v@.contains(x));
    false
}

} // verus!
