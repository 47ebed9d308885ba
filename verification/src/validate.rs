//! The validators: pure checks a widget runs before accepting a submission.
//! A failed check keeps the widget active with a message; nothing here
//! panics or performs input/output.

use vstd::prelude::*;

use crate::document::{NumFacets, StringFacets};
use crate::text::{chars_to_string, int_text, nat_text, push_all, push_str_chars};

verus! {

broadcast use vstd::std_specs::vec::group_vec_axioms, vstd::seq::group_seq_axioms;

/// The outcome of a validation: acceptance, or a message for the user.
#[derive(Debug, PartialEq, Eq)]
pub enum Validation {
    Valid,
    Invalid(String),
}

/// Whether `value` satisfies a declared minimum: strictly above it when the
/// bound is exclusive, at or above it otherwise.
pub fn is_minimum(value: i64, minimum: i64, exclusive: bool) -> (r: bool)
    ensures
        r == if exclusive {
            value > minimum
        } else {
            value >= minimum
        },
{
    if exclusive {
        value > minimum
    } else {
        value >= minimum
    }
}

/// Whether `value` satisfies a declared maximum: strictly below it when the
/// bound is exclusive, at or below it otherwise.
pub fn is_maximum(value: i64, maximum: i64, exclusive: bool) -> (r: bool)
    ensures
        r == if exclusive {
            value < maximum
        } else {
            value <= maximum
        },
{
    if exclusive {
        value < maximum
    } else {
        value <= maximum
    }
}

/// The magnitude of an integer.
pub open spec fn abs_int(v: int) -> int {
    if v < 0 {
        -v
    } else {
        v
    }
}

/// The magnitude of an `i64`, as a `u64`.
fn abs_u64(v: i64) -> (r: u64)
    ensures
        r as int == abs_int(v as int),
{
    if v == i64::MIN {
        9223372036854775808u64
    } else if v < 0 {
        (-v) as u64
    } else {
        v as u64
    }
}

/// Whether `value` is an integer multiple of `multiple_of`; nothing but
/// zero is taken as a multiple of zero.
pub fn is_multiple_of(value: i64, multiple_of: i64) -> (r: bool)
    ensures
        r == if multiple_of == 0 {
            value == 0
        } else {
            abs_int(value as int) % abs_int(multiple_of as int) == 0
        },
{
    if multiple_of == 0 {
        value == 0
    } else {
        let mv = abs_u64(value);
        let mm = abs_u64(multiple_of);
        mv % mm == 0
    }
}

/// An inclusive range check on a plain integer value.
pub struct RangeValidator {
    pub min: Option<i64>,
    pub max: Option<i64>,
}

impl RangeValidator {
    /// Accepts a value iff it lies at or within both declared bounds; the
    /// message names the violated bound.
    pub fn validate(&self, input: &i64) -> (r: Validation)
        ensures
            match (self.min, self.max) {
                (Option::Some(min), _) if *input < min => r matches Validation::Invalid(m)
                    && m@ == "Value must be greater than or equal to "@ + int_text(min as int),
                (_, Option::Some(max)) if *input > max => r matches Validation::Invalid(m)
                    && m@ == "Value must be less than or equal to "@ + int_text(max as int),
                _ => r == Validation::Valid,
            },
    {
        if let Option::Some(min) = self.min {
            if *input < min {
                let mut msg: Vec<char> = Vec::new();
                push_str_chars(&mut msg, "Value must be greater than or equal to ");
                let d = crate::text::i64_digits(min);
                push_all(&mut msg, &d);
                return Validation::Invalid(chars_to_string(&msg));
            }
        }
        if let Option::Some(max) = self.max {
            if *input > max {
                let mut msg: Vec<char> = Vec::new();
                push_str_chars(&mut msg, "Value must be less than or equal to ");
                let d = crate::text::i64_digits(max);
                push_all(&mut msg, &d);
                return Validation::Invalid(chars_to_string(&msg));
            }
        }
        Validation::Valid
    }
}

/// Whether `c` is a decimal digit.
pub open spec fn is_digit(c: char) -> bool {
    '0' <= c && c <= '9'
}

/// The value of a decimal digit.
pub open spec fn digit_val(c: char) -> int {
    c as int - '0' as int
}

/// The value of the first `i` characters read as decimal digits.
pub open spec fn digits_val(s: Seq<char>, i: int) -> int
    decreases i,
{
    if i <= 0 {
        0
    } else if i > s.len() {
        digits_val(s, s.len() as int)
    } else {
        digits_val(s, i - 1) * 10 + digit_val(s[i - 1])
    }
}

/// Whether every character of `s` is a decimal digit.
pub open spec fn all_digits(s: Seq<char>) -> bool {
    forall|i: int| 0 <= i < s.len() ==> is_digit(s[i])
}

/// What parsing `s` as a decimal integer yields: an optional sign followed
/// by at least one digit, with the value in the range of `i64`; anything
/// else is no integer.
pub open spec fn parse_int_spec(s: Seq<char>) -> Option<i64> {
    let negative = s.len() > 0 && s[0] == '-';
    let body = if s.len() > 0 && (s[0] == '-' || s[0] == '+') {
        s.drop_first()
    } else {
        s
    };
    if body.len() == 0 || !all_digits(body) {
        Option::None
    } else {
        let mag = digits_val(body, body.len() as int);
        let v = if negative {
            -mag
        } else {
            mag
        };
        if i64::MIN <= v <= i64::MAX {
            Option::Some(v as i64)
        } else {
            Option::None
        }
    }
}

/// A digit string's value only grows as more digits are read.
proof fn lemma_digits_val_mono(s: Seq<char>, i: int, j: int)
    requires
        0 <= i <= j <= s.len(),
        all_digits(s),
    ensures
        0 <= digits_val(s, i) <= digits_val(s, j),
    decreases j - i,
{
    if i < j {
        lemma_digits_val_mono(s, i, j - 1);
        assert(digit_val(s[j - 1]) >= 0);
    } else if i == j {
        lemma_digits_val_nonneg(s, i);
    }
}

proof fn lemma_digits_val_nonneg(s: Seq<char>, i: int)
    requires
        0 <= i <= s.len(),
        all_digits(s),
    ensures
        digits_val(s, i) >= 0,
    decreases i,
{
    if i > 0 {
        lemma_digits_val_nonneg(s, i - 1);
    }
}

/// Parses the characters as a decimal integer.
#[verifier::loop_isolation(false)]
pub fn parse_int(s: &Vec<char>) -> (r: Option<i64>)
    ensures
        r == parse_int_spec(s@),
{
    let negative = s.len() > 0 && s[0] == '-';
    let start: usize = if s.len() > 0 && (s[0] == '-' || s[0] == '+') {
        1
    } else {
        0
    };
    let ghost body = if s@.len() > 0 && (s@[0] == '-' || s@[0] == '+') {
        s@.drop_first()
    } else {
        s@
    };
    assert(body =~= s@.subrange(start as int, s@.len() as int));
    if s.len() == start {
        return Option::None;
    }
    // The magnitude bound: one more than `i64::MAX` for a negative number.
    let bound: u64 = if negative {
        9223372036854775808u64
    } else {
        9223372036854775807u64
    };
    let mut mag: u64 = 0;
    let mut k: usize = start;
    while k < s.len()
        invariant
            start <= k <= s@.len(),
            all_digits(body.subrange(0, (k - start) as int)),
            mag as int == digits_val(body, (k - start) as int),
            mag <= bound,
        decreases s@.len() - k,
    {
        let c = s[k];
        if !('0' <= c && c <= '9') {
            assert(!is_digit(body[(k - start) as int]));
            return Option::None;
        }
        let d: u64 = (c as u64) - 48;
        assert(d as int == digit_val(body[(k - start) as int]));
        if mag > (bound - d) / 10 {
            // The running value already exceeds the range of `i64`; more
            // digits can only push it further out, so the text parses to
            // nothing whatever follows.
            proof {
                if all_digits(body) {
                    let kk = (k - start) as int;
                    assert(digits_val(body, kk + 1) == mag as int * 10 + digit_val(body[kk]));
                    lemma_digits_val_mono(body, kk + 1, body.len() as int);
                    assert(mag as int * 10 + d > bound) by (nonlinear_arith)
                        requires
                            mag as int > (bound as int - d as int) / 10,
                            0 <= d <= 9,
                            bound as int >= 9,
                    ;
                    assert(digits_val(body, body.len() as int) > bound);
                }
            }
            return Option::None;
        }
        mag = mag * 10 + d;
        k = k + 1;
        assert(body.subrange(0, (k - start) as int) =~= body.subrange(
            0,
            (k - 1 - start) as int,
        ).push(body[(k - 1 - start) as int]));
        assert(all_digits(body.subrange(0, (k - start) as int)));
    }
    proof {
        assert(body.subrange(0, body.len() as int) =~= body);
        assert(all_digits(body));
    }
    if negative {
        if mag == 9223372036854775808u64 {
            Option::Some(i64::MIN)
        } else {
            Option::Some(-(mag as i64))
        }
    } else {
        Option::Some(mag as i64)
    }
}

/// Whether every character from `start` on is a decimal digit.
#[verifier::loop_isolation(false)]
fn all_digits_exec(s: &Vec<char>, start: usize) -> (r: bool)
    requires
        start <= s@.len(),
    ensures
        r == all_digits(s@.subrange(start as int, s@.len() as int)),
{
    let ghost body = s@.subrange(start as int, s@.len() as int);
    let mut k: usize = start;
    while k < s.len()
        invariant
            start <= k <= s@.len(),
            forall|i: int| 0 <= i < k - start ==> is_digit(body[i]),
        decreases s@.len() - k,
    {
        let c = s[k];
        if !('0' <= c && c <= '9') {
            assert(!is_digit(body[(k - start) as int]));
            return false;
        }
        k = k + 1;
    }
    true
}

/// The message a failed numeric range check produces, mirroring which
/// bounds were declared.
pub open spec fn range_message(f: NumFacets) -> Seq<char> {
    match (f.minimum, f.maximum) {
        (Option::Some(min), Option::Some(max)) => "Value must be between "@ + int_text(min as int)
            + " and "@ + int_text(max as int),
        (Option::Some(min), Option::None) => "Value must be greater than or equal to "@ + int_text(
            min as int,
        ),
        (Option::None, Option::Some(max)) => "Value must be less than or equal to "@ + int_text(
            max as int,
        ),
        (Option::None, Option::None) => Seq::<char>::empty(),
    }
}

/// Whether `v` lies within the declared bounds, exclusivity respected.
pub open spec fn in_range(f: NumFacets, v: i64) -> bool {
    &&& match f.minimum {
        Option::Some(min) => if f.exclusive_minimum {
            v > min
        } else {
            v >= min
        },
        Option::None => true,
    }
    &&& match f.maximum {
        Option::Some(max) => if f.exclusive_maximum {
            v < max
        } else {
            v <= max
        },
        Option::None => true,
    }
}

/// Whether `v` is an integer multiple of the declared factor, if any.
pub open spec fn multiple_ok(f: NumFacets, v: i64) -> bool {
    match f.multiple_of {
        Option::Some(m) => if m == 0 {
            v == 0
        } else {
            abs_int(v as int) % abs_int(m as int) == 0
        },
        Option::None => true,
    }
}

/// Whether a typed numeric input satisfies all declared facets: it parses
/// as an integer that lies within the bounds and is a multiple of the
/// declared factor.
pub open spec fn number_ok(f: NumFacets, input: Seq<char>) -> bool {
    match parse_int_spec(input) {
        Option::None => false,
        Option::Some(v) => in_range(f, v) && multiple_ok(f, v),
    }
}

/// The verdict a numeric facet check must reach on a typed input: accepted
/// iff every facet holds, and the first violated rule names itself.
pub open spec fn number_verdict(f: NumFacets, input: Seq<char>, r: Validation) -> bool {
    match parse_int_spec(input) {
        Option::None => r matches Validation::Invalid(m) && m@ == "Value is not a number"@,
        Option::Some(v) => {
            if !in_range(f, v) {
                r matches Validation::Invalid(m) && m@ == range_message(f)
            } else if !multiple_ok(f, v) {
                r matches Validation::Invalid(m) && (f.multiple_of matches Option::Some(mv)
                    && m@ == "Value must be a multiple of "@ + int_text(mv as int))
            } else {
                r == Validation::Valid
            }
        },
    }
}

/// The verdict is accepting exactly on inputs that satisfy every facet.
pub proof fn lemma_number_verdict_two_sided(f: NumFacets, input: Seq<char>, r: Validation)
    requires
        number_verdict(f, input, r),
    ensures
        r is Valid <==> number_ok(f, input),
{
}

/// Validates a typed numeric input against the declared facets: the text
/// must parse as an integer, lie within the bounds, and be a multiple of
/// the declared factor; the first violated rule names itself.
pub fn validate_number(f: &NumFacets, input: &Vec<char>) -> (r: Validation)
    ensures
        number_verdict(*f, input@, r),
{
    let v = match parse_int(input) {
        Option::Some(v) => v,
        Option::None => {
            let mut msg: Vec<char> = Vec::new();
            push_str_chars(&mut msg, "Value is not a number");
            return Validation::Invalid(chars_to_string(&msg));
        },
    };
    let range_ok: bool = match (f.minimum, f.maximum) {
        (Option::Some(min), Option::Some(max)) => is_minimum(v, min, f.exclusive_minimum)
            && is_maximum(v, max, f.exclusive_maximum),
        (Option::Some(min), Option::None) => is_minimum(v, min, f.exclusive_minimum),
        (Option::None, Option::Some(max)) => is_maximum(v, max, f.exclusive_maximum),
        (Option::None, Option::None) => true,
    };
    if !range_ok {
        let mut msg: Vec<char> = Vec::new();
        match (f.minimum, f.maximum) {
            (Option::Some(min), Option::Some(max)) => {
                push_str_chars(&mut msg, "Value must be between ");
                let d1 = crate::text::i64_digits(min);
                push_all(&mut msg, &d1);
                push_str_chars(&mut msg, " and ");
                let d2 = crate::text::i64_digits(max);
                push_all(&mut msg, &d2);
            },
            (Option::Some(min), Option::None) => {
                push_str_chars(&mut msg, "Value must be greater than or equal to ");
                let d1 = crate::text::i64_digits(min);
                push_all(&mut msg, &d1);
            },
            (Option::None, Option::Some(max)) => {
                push_str_chars(&mut msg, "Value must be less than or equal to ");
                let d1 = crate::text::i64_digits(max);
                push_all(&mut msg, &d1);
            },
            (Option::None, Option::None) => {},
        }
        return Validation::Invalid(chars_to_string(&msg));
    }
    match f.multiple_of {
        Option::Some(m) => {
            if is_multiple_of(v, m) {
                Validation::Valid
            } else {
                let mut msg: Vec<char> = Vec::new();
                push_str_chars(&mut msg, "Value must be a multiple of ");
                let d1 = crate::text::i64_digits(m);
                push_all(&mut msg, &d1);
                Validation::Invalid(chars_to_string(&msg))
            }
        },
        Option::None => Validation::Valid,
    }
}

/// What matching `text` against the regular expression `pattern` yields:
/// whether it matches, or nothing when the pattern itself is invalid.
pub uninterp spec fn regex_verdict(pattern: Seq<char>, text: Seq<char>) -> Option<bool>;

/// Relies on regex's `Regex::new` and `Regex::is_match`: compiling a
/// pattern and matching a text against it depend on the two strings alone.
#[verifier::external_body]
fn regex_is_match(pattern: &str, text: &str) -> (r: Option<bool>)
    ensures
        r == regex_verdict(pattern@, text@),
{
    regex::Regex::new(pattern).map(|re| re.is_match(text)).ok()
}

/// Whether a string input passes the declared pattern: a missing pattern
/// passes everything; an invalid pattern passes nothing.
pub open spec fn pattern_ok(pattern: Option<Seq<char>>, text: Seq<char>) -> bool {
    match pattern {
        Option::Some(p) => regex_verdict(p, text) == Option::Some(true),
        Option::None => true,
    }
}

/// Whether a typed string input satisfies all declared facets: the
/// pattern matches and the character count lies within the length bounds.
pub open spec fn string_ok(f: StringFacets, input: Seq<char>) -> bool {
    &&& pattern_ok(crate::schema::opt_text(f.pattern), input)
    &&& (f.min_length matches Option::Some(min) ==> input.len() >= min)
    &&& (f.max_length matches Option::Some(max) ==> input.len() <= max)
}

/// The verdict a string facet check must reach on a typed input: accepted
/// iff every facet holds; the pattern is checked first, then the length
/// bounds, and the first violated rule names itself.
pub open spec fn string_verdict(f: StringFacets, input: Seq<char>, r: Validation) -> bool {
    match f.pattern {
        Option::Some(_) if !pattern_ok(crate::schema::opt_text(f.pattern), input) => (
        r matches Validation::Invalid(m) && (f.pattern matches Option::Some(p) && m@
            == "Value does not match pattern: "@ + p@)),
        _ => {
            if f.min_length matches Option::Some(min) && input.len() < min {
                r matches Validation::Invalid(m) && (f.min_length matches Option::Some(mn)
                    && m@ == "Value is too short. Minimum length is "@ + nat_text(mn as int))
            } else if f.max_length matches Option::Some(max) && input.len() > max {
                r matches Validation::Invalid(m) && (f.max_length matches Option::Some(mx)
                    && m@ == "Value is too long. Maximum length is "@ + nat_text(mx as int))
            } else {
                r == Validation::Valid
            }
        },
    }
}

/// The verdict is accepting exactly on inputs that satisfy every facet.
pub proof fn lemma_string_verdict_two_sided(f: StringFacets, input: Seq<char>, r: Validation)
    requires
        string_verdict(f, input, r),
    ensures
        r is Valid <==> string_ok(f, input),
{
}

/// Validates a typed string input against the declared facets: the
/// pattern, then the length bounds, counted in characters. An invalid
/// pattern rejects the input with the pattern named, as no input can be
/// shown to match it.
pub fn validate_string(f: &StringFacets, input: &Vec<char>) -> (r: Validation)
    ensures
        string_verdict(*f, input@, r),
{
    if let Option::Some(p) = &f.pattern {
        let text = chars_to_string(input);
        let verdict = regex_is_match(p.as_str(), text.as_str());
        let matched = match verdict {
            Option::Some(true) => true,
            _ => false,
        };
        if !matched {
            let mut msg: Vec<char> = Vec::new();
            push_str_chars(&mut msg, "Value does not match pattern: ");
            push_str_chars(&mut msg, p.as_str());
            return Validation::Invalid(chars_to_string(&msg));
        }
    }
    if let Option::Some(min) = f.min_length {
        if input.len() < min {
            let mut msg: Vec<char> = Vec::new();
            push_str_chars(&mut msg, "Value is too short. Minimum length is ");
            let d = crate::text::usize_digits(min);
            push_all(&mut msg, &d);
            return Validation::Invalid(chars_to_string(&msg));
        }
    }
    if let Option::Some(max) = f.max_length {
        if input.len() > max {
            let mut msg: Vec<char> = Vec::new();
            push_str_chars(&mut msg, "Value is too long. Maximum length is ");
            let d = crate::text::usize_digits(max);
            push_all(&mut msg, &d);
            return Validation::Invalid(chars_to_string(&msg));
        }
    }
    Validation::Valid
}

} // verus!

