//! Character-level text utilities shared by the widgets and the request
//! assembler. Text is manipulated as `Vec<char>` so that every operation is
//! verified against the `Seq<char>` view; `String` appears only at the API
//! boundary.

use vstd::prelude::*;

verus! {

/// The characters of a decimal digit, `0` through `9`.
pub open spec fn digit_char(d: int) -> char {
    if d == 0 {
        '0'
    } else if d == 1 {
        '1'
    } else if d == 2 {
        '2'
    } else if d == 3 {
        '3'
    } else if d == 4 {
        '4'
    } else if d == 5 {
        '5'
    } else if d == 6 {
        '6'
    } else if d == 7 {
        '7'
    } else if d == 8 {
        '8'
    } else {
        '9'
    }
}

/// The decimal digit sequence of a non-negative integer, most significant
/// digit first.
pub open spec fn nat_text(n: int) -> Seq<char>
    decreases n,
{
    if n < 10 {
        seq![digit_char(n)]
    } else {
        nat_text(n / 10).push(digit_char(n % 10))
    }
}

/// The decimal rendering of an integer: `nat_text` of its magnitude, with a
/// leading `-` when negative.
pub open spec fn int_text(i: int) -> Seq<char> {
    if i < 0 {
        seq!['-'] + nat_text(-i)
    } else {
        nat_text(i)
    }
}

fn digit_char_exec(d: u64) -> (r: char)
    requires
        d < 10,
    ensures
        r == digit_char(d as int),
{
    if d == 0 {
        '0'
    } else if d == 1 {
        '1'
    } else if d == 2 {
        '2'
    } else if d == 3 {
        '3'
    } else if d == 4 {
        '4'
    } else if d == 5 {
        '5'
    } else if d == 6 {
        '6'
    } else if d == 7 {
        '7'
    } else if d == 8 {
        '8'
    } else {
        '9'
    }
}

fn u64_digits(n: u64) -> (r: Vec<char>)
    ensures
        r@ == nat_text(n as int),
    decreases n,
{
    if n < 10 {
        let mut v: Vec<char> = Vec::new();
        v.push(digit_char_exec(n));
        assert(v@ =~= nat_text(n as int));
        v
    } else {
        let mut v = u64_digits(n / 10);
        v.push(digit_char_exec(n % 10));
        v
    }
}

/// The decimal digits of a non-negative count.
pub fn u64_digits_pub(n: u64) -> (r: Vec<char>)
    ensures
        r@ == nat_text(n as int),
{
    u64_digits(n)
}

/// The decimal digits of a machine-word count.
pub fn usize_digits(n: usize) -> (r: Vec<char>)
    ensures
        r@ == nat_text(n as int),
{
    u64_digits(n as u64)
}

/// The decimal digits of an integer, sign included.
pub fn i64_digits(i: i64) -> (r: Vec<char>)
    ensures
        r@ == int_text(i as int),
{
    if i >= 0 {
        u64_digits(i as u64)
    } else {
        let mag: u64 = if i == i64::MIN {
            9223372036854775808u64
        } else {
            (-i) as u64
        };
        assert(mag == -(i as int));
        let mut v: Vec<char> = Vec::new();
        v.push('-');
        let digits = u64_digits(mag);
        let mut k: usize = 0;
        while k < digits.len()
            invariant
                0 <= k <= digits.len(),
                digits@ == nat_text(mag as int),
                v@ == seq!['-'] + digits@.subrange(0, k as int),
            decreases digits.len() - k,
        {
            v.push(digits[k]);
            k = k + 1;
            assert(v@ =~= seq!['-'] + digits@.subrange(0, k as int));
        }
        assert(digits@.subrange(0, digits@.len() as int) =~= digits@);
        v
    }
}

/// The decimal rendering of an integer as a `String`.
pub fn i64_to_string(i: i64) -> (r: String)
    ensures
        r@ == int_text(i as int),
{
    let v = i64_digits(i);
    chars_to_string(&v)
}

/// Turns a vector of characters into the `String` of exactly those
/// characters.
/// Relies on `String: FromIterator<char>`: collecting characters yields the
/// string made of those characters in order.
#[verifier::external_body]
pub(crate) fn chars_to_string(v: &Vec<char>) -> (r: String)
    ensures
        r@ == v@,
{
    v.iter().collect()
}

/// The characters of a string slice, in order.
pub fn string_to_chars(s: &str) -> (r: Vec<char>)
    ensures
        r@ == s@,
{
    let n = s.unicode_len();
    let mut v: Vec<char> = Vec::new();
    let mut i: usize = 0;
    while i < n
        invariant
            0 <= i <= n,
            n == s@.len(),
            v@ == s@.subrange(0, i as int),
        decreases n - i,
    {
        v.push(s.get_char(i));
        i = i + 1;
        assert(v@ =~= s@.subrange(0, i as int));
    }
    assert(s@.subrange(0, n as int) =~= s@);
    v
}

/// Appends all characters of `src` to `dst`.
pub fn push_all(dst: &mut Vec<char>, src: &Vec<char>)
    ensures
        final(dst)@ == old(dst)@ + src@,
{
    let mut k: usize = 0;
    while k < src.len()
        invariant
            0 <= k <= src.len(),
            dst@ == old(dst)@ + src@.subrange(0, k as int),
        decreases src.len() - k,
    {
        dst.push(src[k]);
        k = k + 1;
        assert(dst@ =~= old(dst)@ + src@.subrange(0, k as int));
    }
    assert(src@.subrange(0, src@.len() as int) =~= src@);
}

/// Appends the characters of a string slice to `dst`.
pub fn push_str_chars(dst: &mut Vec<char>, src: &str)
    ensures
        final(dst)@ == old(dst)@ + src@,
{
    let v = string_to_chars(src);
    push_all(dst, &v);
}

/// The given pieces joined with the one-character separator `sep`.
pub open spec fn join_char(pieces: Seq<Seq<char>>, sep: char, i: int) -> Seq<char>
    decreases i,
{
    if i <= 0 {
        Seq::<char>::empty()
    } else if i > pieces.len() {
        join_char(pieces, sep, pieces.len() as int)
    } else if i == 1 {
        pieces[0]
    } else {
        join_char(pieces, sep, i - 1) + seq![sep] + pieces[i - 1]
    }
}

/// A joined prefix ignores pieces appended after it.
pub proof fn lemma_join_char_push(pieces: Seq<Seq<char>>, sep: char, p: Seq<char>, i: int)
    requires
        0 <= i <= pieces.len(),
    ensures
        join_char(pieces.push(p), sep, i) == join_char(pieces, sep, i),
    decreases i,
{
    if i > 0 {
        lemma_join_char_push(pieces, sep, p, i - 1);
        assert(pieces.push(p)[i - 1] == pieces[i - 1]);
        if i == 1 {
            assert(pieces.push(p)[0] == pieces[0]);
        }
    }
}

/// Whether two character vectors hold the same characters.
pub fn chars_eq(a: &Vec<char>, b: &Vec<char>) -> (r: bool)
    ensures
        r == (a@ == b@),
{
    if a.len() != b.len() {
        assert(a@ != b@) by {
            if a@ == b@ {
                assert(a@.len() == b@.len());
            }
        }
        return false;
    }
    let mut k: usize = 0;
    while k < a.len()
        invariant
            0 <= k <= a.len(),
            a@.len() == b@.len(),
            forall|j: int| 0 <= j < k ==> a@[j] == b@[j],
        decreases a.len() - k,
    {
        if a[k] != b[k] {
            assert(a@ != b@) by {
                if a@ == b@ {
                    assert(a@[k as int] == b@[k as int]);
                }
            }
            return false;
        }
        k = k + 1;
    }
    assert(a@ =~= b@);
    true
}

/// Whether the characters of `s` equal those of the string slice `t`.
pub fn chars_eq_str(s: &Vec<char>, t: &str) -> (r: bool)
    ensures
        r == (s@ == t@),
{
    let tv = string_to_chars(t);
    chars_eq(s, &tv)
}

} // verus!

