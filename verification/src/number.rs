//! Numbers written as text, with a fraction or an exponent.

use vstd::prelude::*;
use vstd::string::StringExecFns;
use crate::text::{
    all_digits, ascii_lowercase, ascii_lowered, chars_of, is_digit, opt_view, same_text,
    text_between,
};

verus! {

/// The whole part of the floating-point number that a text in TOML's form writes out,
/// rounded to double precision, taken to the nearest end of 64 signed bits where it is
/// beyond them. `None` for a number beyond double precision and for what is no such
/// text.
pub uninterp spec fn whole_part(text: Seq<char>) -> Option<i64>;

/// `toml::Value`'s `FromStr`: the floating-point number the text writes out, by its
/// whole part; `None` where the text is no float or the number is too large for one. How
/// it is rounded is not stated.
#[verifier::external_body]
fn whole_part_of(text: &str) -> (whole: Option<i64>)
    ensures
        whole == whole_part(text@),
{
    match text.parse() {
        Ok(toml::Value::Float(number)) => Some(number as i64),
        _ => None,
    }
}

/// How many digits a text begins with.
pub open spec fn digit_run(s: Seq<char>) -> nat
    decreases s.len(),
{
    if s.len() > 0 && is_digit(s[0]) {
        1 + digit_run(s.skip(1))
    } else {
        0
    }
}

/// See [`digit_run`]: how many digits stand at a place.
fn digits_at(chars: &[char], from: usize) -> (end: usize)
    requires
        from <= chars@.len(),
    ensures
        from <= end <= chars@.len(),
        end - from == digit_run(chars@.skip(from as int)),
{
    let mut i: usize = from;
    while i < chars.len() && '0' <= chars[i] && chars[i] <= '9'
        invariant
            from <= i <= chars@.len(),
            digit_run(chars@.skip(from as int)) == (i - from) + digit_run(chars@.skip(i as int)),
        decreases chars@.len() - i,
    {
        proof {
            assert(chars@.skip(i as int)[0] == chars@[i as int]);
            assert(chars@.skip(i as int).skip(1) =~= chars@.skip(i + 1));
        }
        i += 1;
    }
    proof {
        if i < chars@.len() {
            assert(chars@.skip(i as int)[0] == chars@[i as int]);
        }
    }
    i
}

/// The text after its sign, if it has one.
pub open spec fn unsigned(s: Seq<char>) -> Seq<char> {
    if s.len() > 0 && (s[0] == '+' || s[0] == '-') {
        s.skip(1)
    } else {
        s
    }
}

/// The text without the zeros before its first other digit, of which the last stays
/// where there is no other.
pub open spec fn bare(s: Seq<char>) -> Seq<char>
    decreases s.len(),
{
    if s.len() == 0 {
        "0"@
    } else if s[0] == '0' {
        bare(s.skip(1))
    } else {
        s
    }
}

/// The exponent a text writes out, empty where there is none: an `e`, a sign, digits.
pub open spec fn exponent(s: Seq<char>) -> Option<Seq<char>> {
    if s.len() == 0 {
        Some(s)
    } else if (s[0] == 'e' || s[0] == 'E') && all_digits(unsigned(s.skip(1))) {
        Some(s)
    } else {
        None
    }
}

/// The number a text without a sign writes out, in the form of a TOML float: digits
/// without a leading zero, a point, digits, and the exponent. Digits may be missing on
/// one side of the point, and the point with them.
pub open spec fn float_form(s: Seq<char>) -> Option<Seq<char>> {
    let whole = s.take(digit_run(s) as int);
    let rest = s.skip(digit_run(s) as int);
    let pointed = rest.len() > 0 && rest[0] == '.';
    let tail = rest.skip(1);
    let part = if pointed {
        tail.take(digit_run(tail) as int)
    } else {
        Seq::empty()
    };
    let power = if pointed {
        tail.skip(digit_run(tail) as int)
    } else {
        rest
    };
    if whole.len() + part.len() == 0 {
        None
    } else {
        match exponent(power) {
            Some(power) => Some(
                bare(whole) + "."@ + (if part.len() == 0 {
                    "0"@
                } else {
                    part
                }) + power,
            ),
            None => None,
        }
    }
}

/// The end of 64 signed bits on the side of a sign.
pub open spec fn bound(negative: bool) -> i64 {
    if negative {
        i64::MIN
    } else {
        i64::MAX
    }
}

/// The whole part of the number a text writes out: a decimal number with an optional
/// sign, fraction and exponent, an infinity, or `nan`, which counts as zero.
pub open spec fn float_text(t: Seq<char>) -> Option<i64> {
    let negative = t.len() > 0 && t[0] == '-';
    let body = unsigned(t);
    let word = ascii_lowered(body);
    if word == "inf"@ || word == "infinity"@ {
        Some(bound(negative))
    } else if word == "nan"@ {
        Some(0)
    } else {
        match float_form(body) {
            Some(form) => match whole_part(
                if negative {
                    "-"@ + form
                } else {
                    form
                },
            ) {
                Some(n) => Some(n),
                // Too large for double precision.
                None => Some(bound(negative)),
            },
            None => None,
        }
    }
}

/// See [`bare`].
fn without_zeros(chars: &[char], to: usize) -> (text: String)
    requires
        to <= chars@.len(),
    ensures
        text@ == bare(chars@.take(to as int)),
{
    let ghost whole = chars@.take(to as int);
    let mut i: usize = 0;
    proof {
        assert(whole.skip(0) =~= whole);
    }
    while i < to && chars[i] == '0'
        invariant
            i <= to <= chars@.len(),
            whole == chars@.take(to as int),
            bare(whole) == bare(whole.skip(i as int)),
        decreases to - i,
    {
        proof {
            assert(whole.skip(i as int)[0] == chars@[i as int]);
            assert(whole.skip(i as int).skip(1) =~= whole.skip(i + 1));
        }
        i += 1;
    }
    if i == to {
        return "0".to_owned();
    }
    proof {
        assert(whole.skip(i as int)[0] == chars@[i as int]);
    }
    let text = text_between(chars, i, to);
    proof {
        assert(text@ =~= whole.skip(i as int));
    }
    text
}

/// Whether `chars[from..]` is an exponent or nothing. See [`exponent`].
fn is_exponent(chars: &[char], from: usize) -> (yes: bool)
    requires
        from <= chars@.len(),
    ensures
        yes == (exponent(chars@.skip(from as int)) is Some),
{
    let ghost s = chars@.skip(from as int);
    if from == chars.len() {
        return true;
    }
    proof {
        assert(s[0] == chars@[from as int]);
        assert(s.skip(1) =~= chars@.skip(from + 1));
    }
    if chars[from] != 'e' && chars[from] != 'E' {
        return false;
    }
    let mut i: usize = from + 1;
    if i < chars.len() && (chars[i] == '+' || chars[i] == '-') {
        i += 1;
    }
    let ghost body = unsigned(s.skip(1));
    proof {
        assert(body =~= chars@.skip(i as int)) by {
            if from + 1 < chars@.len() {
                assert(s.skip(1)[0] == chars@[from + 1]);
                assert(s.skip(1).skip(1) =~= chars@.skip(from + 2));
            }
        }
    }
    if i == chars.len() {
        return false;
    }
    let start: usize = i;
    while i < chars.len()
        invariant
            start <= i <= chars@.len(),
            body == chars@.skip(start as int),
            (exponent(chars@.skip(from as int)) is Some) == all_digits(body),
            start < chars@.len(),
            forall|k: int| 0 <= k < i - start ==> is_digit(#[trigger] body[k]),
        decreases chars@.len() - i,
    {
        if !('0' <= chars[i] && chars[i] <= '9') {
            proof {
                assert(!is_digit(body[i - start]));
            }
            return false;
        }
        i += 1;
    }
    true
}

/// See [`float_form`].
fn read_float_form(text: &str) -> (form: Option<String>)
    ensures
        opt_view(form) == float_form(text@),
{
    let chars = chars_of(text);
    let ghost s = chars@;
    proof {
        assert(s.skip(0) =~= s);
    }
    let i: usize = digits_at(chars.as_slice(), 0);
    let ghost rest = s.skip(i as int);
    proof {
        if i < s.len() {
            assert(rest[0] == s[i as int]);
        }
    }
    let pointed = i < chars.len() && chars[i] == '.';
    let from: usize = if pointed { i + 1 } else { i };
    let to: usize = if pointed { digits_at(chars.as_slice(), from) } else { i };
    proof {
        if pointed {
            assert(rest.skip(1) =~= s.skip(from as int));
            assert(rest.skip(1).take(to - from) =~= s.subrange(from as int, to as int));
            assert(rest.skip(1).skip(to - from) =~= s.skip(to as int));
        } else {
            assert(s.subrange(from as int, to as int) =~= Seq::<char>::empty());
        }
    }
    if i == 0 && from == to {
        return None;
    }
    if !is_exponent(chars.as_slice(), to) {
        return None;
    }
    let mut form = without_zeros(chars.as_slice(), i);
    form.append(".");
    if from == to {
        form.append("0");
    } else {
        form.append(text_between(chars.as_slice(), from, to).as_str());
    }
    form.append(text_between(chars.as_slice(), to, chars.len()).as_str());
    proof {
        assert(s.subrange(to as int, s.len() as int) =~= s.skip(to as int));
    }
    Some(form)
}

/// Read the whole part of a number written as text. See [`float_text`].
pub fn parse_float(text: &str) -> (whole: Option<i64>)
    ensures
        whole == float_text(text@),
{
    let chars = chars_of(text);
    let negative = chars.len() > 0 && chars[0] == '-';
    let from: usize = if chars.len() > 0 && (chars[0] == '+' || chars[0] == '-') {
        1
    } else {
        0
    };
    let body = text_between(chars.as_slice(), from, chars.len());
    proof {
        assert(body@ =~= unsigned(text@));
    }
    let word = ascii_lowercase(body.as_str());
    let end: i64 = if negative { i64::MIN } else { i64::MAX };
    if same_text(word.as_str(), "inf") || same_text(word.as_str(), "infinity") {
        return Some(end);
    }
    if same_text(word.as_str(), "nan") {
        return Some(0);
    }
    let form = match read_float_form(body.as_str()) {
        Some(form) => form,
        None => {
            return None;
        },
    };
    let signed = if negative {
        let mut signed = "-".to_owned();
        signed.append(form.as_str());
        signed
    } else {
        form
    };
    match whole_part_of(signed.as_str()) {
        Some(n) => Some(n),
        None => Some(end),
    }
}

// ---------------------------------------------------------------------------
// Laws
// ---------------------------------------------------------------------------

proof fn lemma_digit_run(digits: Seq<char>, rest: Seq<char>)
    requires
        forall|i: int| 0 <= i < digits.len() ==> is_digit(#[trigger] digits[i]),
        rest.len() > 0 ==> !is_digit(rest[0]),
    ensures
        digit_run(digits + rest) == digits.len(),
        (digits + rest).take(digits.len() as int) == digits,
        (digits + rest).skip(digits.len() as int) == rest,
    decreases digits.len(),
{
    let s = digits + rest;
    assert(s.take(digits.len() as int) =~= digits);
    assert(s.skip(digits.len() as int) =~= rest);
    if digits.len() > 0 {
        assert(s[0] == digits[0]);
        assert(s.skip(1) =~= digits.skip(1) + rest);
        lemma_digit_run(digits.skip(1), rest);
    } else {
        assert(s =~= rest);
    }
}

proof fn lemma_bare(zeros: Seq<char>, digits: Seq<char>)
    requires
        forall|i: int| 0 <= i < zeros.len() ==> #[trigger] zeros[i] == '0',
        digits.len() > 0 ==> digits[0] != '0',
    ensures
        bare(zeros + digits) == if digits.len() == 0 {
            "0"@
        } else {
            digits
        },
    decreases zeros.len(),
{
    let s = zeros + digits;
    if zeros.len() > 0 {
        assert(s[0] == zeros[0]);
        assert(s.skip(1) =~= zeros.skip(1) + digits);
        lemma_bare(zeros.skip(1), digits);
    } else {
        assert(s =~= digits);
    }
}

/// A number with a fraction is read as it is written, zeros before it aside: its digits, a
/// point, the digits of its fraction and its exponent, and a zero on a side of the point
/// where there are no digits.
pub proof fn law_a_number_is_read_as_written(
    zeros: Seq<char>,
    digits: Seq<char>,
    part: Seq<char>,
    power: Seq<char>,
)
    requires
        forall|i: int| 0 <= i < zeros.len() ==> #[trigger] zeros[i] == '0',
        forall|i: int| 0 <= i < digits.len() ==> is_digit(#[trigger] digits[i]),
        forall|i: int| 0 <= i < part.len() ==> is_digit(#[trigger] part[i]),
        digits.len() > 0 ==> digits[0] != '0',
        power.len() > 0 ==> (power[0] == 'e' || power[0] == 'E') && all_digits(
            unsigned(power.skip(1)),
        ),
    ensures
        ({
            let whole = if digits.len() == 0 {
                seq!['0']
            } else {
                digits
            };
            let after = if part.len() == 0 {
                seq!['0']
            } else {
                part
            };
            &&& zeros.len() + digits.len() + part.len() > 0 ==> float_form(
                (zeros + digits) + (seq!['.'] + (part + power)),
            ) == Some(whole + seq!['.'] + after + power)
            &&& zeros.len() + digits.len() > 0 ==> float_form((zeros + digits) + power) == Some(
                whole + seq!['.'] + seq!['0'] + power,
            )
            &&& float_form(power) is None
            &&& float_form(seq!['.'] + power) is None
        }),
{
    let all = zeros + digits;
    let tail = part + power;
    let rest = seq!['.'] + tail;
    assert forall|i: int| 0 <= i < all.len() implies is_digit(#[trigger] all[i]) by {
        if i < zeros.len() {
            assert(all[i] == zeros[i]);
        } else {
            assert(all[i] == digits[i - zeros.len()]);
        }
    }
    reveal_strlit(".");
    reveal_strlit("0");
    assert("."@ =~= seq!['.']);
    assert("0"@ =~= seq!['0']);
    let none = Seq::<char>::empty();
    lemma_digit_run(all, rest);
    lemma_digit_run(part, power);
    lemma_digit_run(all, power);
    lemma_bare(zeros, digits);
    assert(rest.skip(1) =~= tail);
    lemma_digit_run(none, power);
    assert(none + power =~= power);
    let dotted = seq!['.'] + power;
    lemma_digit_run(none, dotted);
    assert(none + dotted =~= dotted);
    assert(dotted.skip(1) =~= power);
}

/// The words for numbers that no digits write, in any case and with either sign: an infinity
/// is the end of 64 signed bits on its side, and what is no number counts as zero.
pub proof fn law_how_the_words_are_read(t: Seq<char>)
    ensures
        ascii_lowered(t) == "inf"@ || ascii_lowered(t) == "infinity"@ ==> {
            &&& float_text(t) == Some(i64::MAX)
            &&& float_text(seq!['+'] + t) == Some(i64::MAX)
            &&& float_text(seq!['-'] + t) == Some(i64::MIN)
        },
        ascii_lowered(t) == "nan"@ ==> {
            &&& float_text(t) == Some(0i64)
            &&& float_text(seq!['-'] + t) == Some(0i64)
        },
{
    reveal_strlit("inf");
    reveal_strlit("infinity");
    reveal_strlit("nan");
    assert("nan"@[0] != "inf"@[0] && "nan"@[0] != "infinity"@[0]);
    let plus = seq!['+'] + t;
    let minus = seq!['-'] + t;
    assert(plus.skip(1) =~= t);
    assert(minus.skip(1) =~= t);
    assert(unsigned(plus) == t && unsigned(minus) == t);
    if t.len() > 0 && (t[0] == '+' || t[0] == '-') {
        assert(ascii_lowered(t)[0] == t[0]);
    }
}

} // verus!
