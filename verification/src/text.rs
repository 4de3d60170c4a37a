//! Text as sequences of characters: the string operations the rest of the
//! library is written in, each stated over the characters it reads and gives.

use vstd::prelude::*;
use vstd::string::StringExecFns;

verus! {

/// `String::push`: appends one character to the end of the text.
pub assume_specification[ String::push ](text: &mut String, c: char)
    ensures
        final(text)@ == old(text)@.push(c),
;

/// The text that `Debug` gives a string: quoted, with the characters escaped
/// that `str`'s `Debug` escapes.
pub uninterp spec fn debug_form(text: Seq<char>) -> Seq<char>;

/// `<str as Debug>::fmt`, reached through `format!`: the quoted, escaped form of
/// the text. Which characters are escaped is not stated.
#[verifier::external_body]
pub(crate) fn quoted(text: &str) -> (out: String)
    ensures
        out@ == debug_form(text@),
{
    format!("{:?}", text)
}

/// The text that Unicode lower-casing gives.
pub uninterp spec fn lowercase_form(text: Seq<char>) -> Seq<char>;

/// `str::to_lowercase`: the lower-case form of the text by Unicode's own
/// mapping, which is not stated.
#[verifier::external_body]
pub(crate) fn lowercase(text: &str) -> (out: String)
    ensures
        out@ == lowercase_form(text@),
{
    text.to_lowercase()
}

/// The characters of each string of a list.
pub open spec fn views(list: Seq<String>) -> Seq<Seq<char>> {
    list.map_values(|s: String| s@)
}

/// The characters of an optional string.
pub open spec fn opt_view(text: Option<String>) -> Option<Seq<char>> {
    match text {
        Some(s) => Some(s@),
        None => None,
    }
}

/// Whether two texts have the same characters.
pub fn same_text(a: &str, b: &str) -> (same: bool)
    ensures
        same == (a@ == b@),
{
    a.to_owned() == b.to_owned()
}

/// The characters of a text, in order.
pub fn chars_of(text: &str) -> (chars: Vec<char>)
    ensures
        chars@ == text@,
{
    let mut chars: Vec<char> = Vec::new();
    for c in it: text.chars()
        invariant
            it.seq() == text@,
            chars@ == text@.take(it.index()),
    {
        chars.push(c);
        proof {
            assert(text@.take(it.index() + 1) =~= text@.take(it.index()).push(c));
        }
    }
    chars
}

/// The text made of `chars[from..to]`.
pub fn text_between(chars: &[char], from: usize, to: usize) -> (text: String)
    requires
        from <= to <= chars@.len(),
    ensures
        text@ == chars@.subrange(from as int, to as int),
{
    let mut text = String::new();
    let mut i: usize = from;
    while i < to
        invariant
            from <= i <= to <= chars@.len(),
            text@ == chars@.subrange(from as int, i as int),
        decreases to - i,
    {
        text.push(chars[i]);
        i += 1;
        proof {
            assert(chars@.subrange(from as int, i as int) =~= chars@.subrange(
                from as int,
                i - 1,
            ).push(chars@[i - 1]));
        }
    }
    text
}

/// The text made of all the characters given.
pub fn text_of(chars: &[char]) -> (text: String)
    ensures
        text@ == chars@,
{
    let text = text_between(chars, 0, chars.len());
    proof {
        assert(chars@.subrange(0, chars@.len() as int) =~= chars@);
    }
    text
}

// ---------------------------------------------------------------------------
// Numbers
// ---------------------------------------------------------------------------

/// The decimal digit `d` stands for.
pub open spec fn digit(d: nat) -> char {
    (48 + d) as u8 as char
}

/// A natural number in decimal, without leading zeros.
pub open spec fn decimal(n: nat) -> Seq<char>
    decreases n,
{
    if n < 10 {
        seq![digit(n)]
    } else {
        decimal(n / 10).push(digit(n % 10))
    }
}

/// An integer in decimal, with a minus sign before a negative one.
pub open spec fn decimal_int(n: int) -> Seq<char> {
    if n < 0 {
        seq!['-'] + decimal((-n) as nat)
    } else {
        decimal(n as nat)
    }
}

/// `n` in decimal.
pub fn decimal_of(n: u64) -> (text: String)
    ensures
        text@ == decimal(n as nat),
    decreases n,
{
    if n < 10 {
        let mut text = String::new();
        text.push((48u8 + n as u8) as char);
        proof {
            assert(text@ =~= seq![digit(n as nat)]);
        }
        text
    } else {
        let mut text = decimal_of(n / 10);
        text.push((48u8 + (n % 10) as u8) as char);
        text
    }
}

/// `n` in decimal, signed.
pub fn decimal_of_signed(n: i64) -> (text: String)
    ensures
        text@ == decimal_int(n as int),
{
    if n < 0 {
        let mut text = String::new();
        text.push('-');
        let size: u64 = (-(n as i128)) as u64;
        let digits = decimal_of(size);
        text.append(digits.as_str());
        proof {
            assert(text@ =~= seq!['-'] + decimal(size as nat));
        }
        text
    } else {
        decimal_of(n as u64)
    }
}

/// The value of a decimal digit.
pub open spec fn digit_value(c: char) -> nat {
    (c as u32 - 48) as nat
}

/// Whether `c` is a decimal digit.
pub open spec fn is_digit(c: char) -> bool {
    '0' <= c <= '9'
}

/// Whether a text is one or more decimal digits.
pub open spec fn all_digits(s: Seq<char>) -> bool {
    s.len() > 0 && forall|i: int| 0 <= i < s.len() ==> is_digit(#[trigger] s[i])
}

/// The number that decimal digits stand for.
pub open spec fn digits_value(s: Seq<char>) -> nat
    decreases s.len(),
{
    if s.len() == 0 {
        0
    } else {
        10 * digits_value(s.drop_last()) + digit_value(s.last())
    }
}

/// The natural number a text writes out: decimal digits after an optional plus
/// sign.
pub open spec fn natural(s: Seq<char>) -> Option<nat> {
    let body = if s.len() > 0 && s[0] == '+' {
        s.skip(1)
    } else {
        s
    };
    if all_digits(body) {
        Some(digits_value(body))
    } else {
        None
    }
}

/// The integer a text writes out: decimal digits after an optional sign.
pub open spec fn integer(s: Seq<char>) -> Option<int> {
    if s.len() > 0 && s[0] == '-' {
        if all_digits(s.skip(1)) {
            Some(-(digits_value(s.skip(1)) as int))
        } else {
            None
        }
    } else {
        match natural(s) {
            Some(n) => Some(n as int),
            None => None,
        }
    }
}

/// A number in decimal is all digits, which stand for that number.
pub proof fn lemma_decimal_digits(n: nat)
    ensures
        all_digits(decimal(n)),
        digits_value(decimal(n)) == n,
    decreases n,
{
    let d: nat = if n < 10 { n } else { n % 10 };
    assert(digit_value(digit(d)) == d);
    if n < 10 {
        assert(decimal(n).drop_last() =~= Seq::<char>::empty());
        assert(digits_value(decimal(n).drop_last()) == 0);
    } else {
        lemma_decimal_digits(n / 10);
        assert(decimal(n).drop_last() =~= decimal(n / 10));
    }
}

/// The number that `chars[from..]` writes out in decimal digits, where it is no
/// more than 64 bits hold.
fn digits_from(chars: &[char], from: usize) -> (value: Option<u64>)
    requires
        from <= chars@.len(),
    ensures
        value == {
            let body = chars@.skip(from as int);
            if all_digits(body) && digits_value(body) <= u64::MAX {
                Some(digits_value(body) as u64)
            } else {
                None::<u64>
            }
        },
{
    let ghost body = chars@.skip(from as int);
    let total: usize = chars.len();
    if from == total {
        return None;
    }
    let mut value: Option<u64> = Some(0);
    let mut i: usize = from;
    proof {
        assert(body.take(0) =~= Seq::<char>::empty());
    }
    while i < total
        invariant
            from <= i <= total == chars@.len(),
            body == chars@.skip(from as int),
            forall|j: int| 0 <= j < i - from ==> is_digit(#[trigger] body[j]),
            match value {
                Some(v) => v == digits_value(body.take(i - from)),
                None => digits_value(body.take(i - from)) > u64::MAX,
            },
        decreases total - i,
    {
        let c = chars[i];
        proof {
            assert(body[i - from] == c);
            assert(body.take(i - from + 1).drop_last() =~= body.take(i - from));
            assert(body.take(i - from + 1).last() == c);
        }
        if !('0' <= c && c <= '9') {
            proof {
                assert(!is_digit(body[i - from]));
            }
            return None;
        }
        let d: u64 = (c as u32 - 48) as u64;
        value = match value {
            Some(v) => match v.checked_mul(10) {
                Some(w) => w.checked_add(d),
                None => None,
            },
            None => None,
        };
        i += 1;
    }
    proof {
        assert(body.take(i - from) =~= body);
    }
    value
}

/// Read a natural number of 64 bits.
pub fn parse_natural(text: &str) -> (value: Option<u64>)
    ensures
        value == match natural(text@) {
            Some(n) => if n <= u64::MAX {
                Some(n as u64)
            } else {
                None
            },
            None => None,
        },
{
    let chars = chars_of(text);
    let signed = chars.len() > 0 && chars[0] == '+';
    let from: usize = if signed { 1 } else { 0 };
    proof {
        assert(chars@.skip(0) =~= chars@);
    }
    digits_from(chars.as_slice(), from)
}

/// Read a signed integer of 64 bits.
pub fn parse_integer(text: &str) -> (value: Option<i64>)
    ensures
        value == match integer(text@) {
            Some(n) => if i64::MIN <= n <= i64::MAX {
                Some(n as i64)
            } else {
                None
            },
            None => None,
        },
{
    let chars = chars_of(text);
    if chars.len() > 0 && chars[0] == '-' {
        match digits_from(chars.as_slice(), 1) {
            Some(size) => if size <= 0x8000_0000_0000_0000 {
                Some((-(size as i128)) as i64)
            } else {
                None
            },
            None => None,
        }
    } else {
        match parse_natural(text) {
            Some(size) => if size <= 0x7fff_ffff_ffff_ffff {
                Some(size as i64)
            } else {
                None
            },
            None => None,
        }
    }
}

// ---------------------------------------------------------------------------
// White space
// ---------------------------------------------------------------------------

/// The characters with Unicode's White_Space property.
pub open spec fn is_space(c: char) -> bool {
    let n = c as u32;
    ||| 0x9 <= n <= 0xd
    ||| n == 0x20
    ||| n == 0x85
    ||| n == 0xa0
    ||| n == 0x1680
    ||| 0x2000 <= n <= 0x200a
    ||| n == 0x2028
    ||| n == 0x2029
    ||| n == 0x202f
    ||| n == 0x205f
    ||| n == 0x3000
}

/// Whether `c` has Unicode's White_Space property.
pub fn space(c: char) -> (yes: bool)
    ensures
        yes == is_space(c),
{
    let n: u32 = c as u32;
    (0x9 <= n && n <= 0xd) || n == 0x20 || n == 0x85 || n == 0xa0 || n == 0x1680 || (0x2000 <= n && n
        <= 0x200a) || n == 0x2028 || n == 0x2029 || n == 0x202f || n == 0x205f || n == 0x3000
}

/// The text without its leading white space.
pub open spec fn trim_start(s: Seq<char>) -> Seq<char>
    decreases s.len(),
{
    if s.len() > 0 && is_space(s[0]) {
        trim_start(s.skip(1))
    } else {
        s
    }
}

/// The text without its trailing white space.
pub open spec fn trim_end(s: Seq<char>) -> Seq<char>
    decreases s.len(),
{
    if s.len() > 0 && is_space(s.last()) {
        trim_end(s.drop_last())
    } else {
        s
    }
}

/// The text without white space at either end.
pub open spec fn trimmed(s: Seq<char>) -> Seq<char> {
    trim_end(trim_start(s))
}

/// The text without white space at either end.
pub fn trim(text: &str) -> (out: String)
    ensures
        out@ == trimmed(text@),
{
    let chars = chars_of(text);
    let mut from: usize = 0;
    proof {
        assert(chars@.skip(0) =~= chars@);
    }
    while from < chars.len() && space(chars[from])
        invariant
            from <= chars@.len(),
            trim_start(chars@) == trim_start(chars@.skip(from as int)),
        decreases chars@.len() - from,
    {
        proof {
            assert(chars@.skip(from as int).skip(1) =~= chars@.skip(from + 1));
        }
        from += 1;
    }
    let ghost start = chars@.skip(from as int);
    let mut to: usize = chars.len();
    proof {
        assert(start =~= chars@.subrange(from as int, to as int));
    }
    while from < to && space(chars[to - 1])
        invariant
            from <= to <= chars@.len(),
            trim_end(start) == trim_end(chars@.subrange(from as int, to as int)),
        decreases to,
    {
        proof {
            assert(chars@.subrange(from as int, to as int).drop_last() =~= chars@.subrange(
                from as int,
                to - 1,
            ));
        }
        to -= 1;
    }
    text_between(chars.as_slice(), from, to)
}

// ---------------------------------------------------------------------------
// Case
// ---------------------------------------------------------------------------

/// An ASCII upper-case letter in lower case, anything else unchanged.
pub open spec fn ascii_lower(c: char) -> char {
    if 'A' <= c <= 'Z' {
        (c as u8 + 32) as u8 as char
    } else {
        c
    }
}

/// The text with its ASCII letters in lower case.
pub open spec fn ascii_lowered(s: Seq<char>) -> Seq<char> {
    s.map_values(|c: char| ascii_lower(c))
}

/// The text with its ASCII letters in lower case.
pub fn ascii_lowercase(text: &str) -> (out: String)
    ensures
        out@ == ascii_lowered(text@),
{
    let chars = chars_of(text);
    let mut out = String::new();
    let mut i: usize = 0;
    while i < chars.len()
        invariant
            i <= chars@.len(),
            chars@ == text@,
            out@ == ascii_lowered(text@).take(i as int),
        decreases chars@.len() - i,
    {
        let c = chars[i];
        if 'A' <= c && c <= 'Z' {
            out.push((c as u8 + 32) as char);
        } else {
            out.push(c);
        }
        i += 1;
        proof {
            assert(ascii_lowered(text@).take(i as int) =~= ascii_lowered(text@).take(i - 1).push(
                ascii_lower(c),
            ));
        }
    }
    proof {
        assert(ascii_lowered(text@).take(i as int) =~= ascii_lowered(text@));
    }
    out
}

// ---------------------------------------------------------------------------
// Prefixes and parts
// ---------------------------------------------------------------------------

/// Whether `text` begins with `prefix`.
pub fn starts_with(text: &str, prefix: &str) -> (yes: bool)
    ensures
        yes == prefix@.is_prefix_of(text@),
{
    let chars = chars_of(text);
    let head = chars_of(prefix);
    if head.len() > chars.len() {
        return false;
    }
    let mut i: usize = 0;
    while i < head.len()
        invariant
            i <= head@.len() <= chars@.len(),
            chars@ == text@,
            head@ == prefix@,
            forall|j: int| 0 <= j < i ==> head@[j] == chars@[j],
        decreases head@.len() - i,
    {
        if head[i] != chars[i] {
            proof {
                assert(prefix@[i as int] != text@.take(prefix@.len() as int)[i as int]);
            }
            return false;
        }
        i += 1;
    }
    proof {
        assert(prefix@ =~= text@.take(prefix@.len() as int));
    }
    true
}

/// Whether `needle` stands in `s` at `at`.
pub open spec fn found_at(s: Seq<char>, needle: Seq<char>, at: int) -> bool {
    0 <= at && at + needle.len() <= s.len() && s.subrange(at, at + needle.len()) == needle
}

/// Whether `needle` stands anywhere in `s`.
pub open spec fn holds(s: Seq<char>, needle: Seq<char>) -> bool {
    exists|at: int| found_at(s, needle, at)
}

/// Whether `needle` stands in `chars` at `at`.
pub fn matches_at(chars: &[char], needle: &[char], at: usize) -> (yes: bool)
    requires
        at <= chars@.len(),
    ensures
        yes == found_at(chars@, needle@, at as int),
{
    let total: usize = chars.len();
    if needle.len() > total - at {
        return false;
    }
    let mut i: usize = 0;
    while i < needle.len()
        invariant
            i <= needle@.len(),
            at + needle@.len() <= total == chars@.len(),
            forall|j: int| 0 <= j < i ==> needle@[j] == chars@[at + j],
        decreases needle@.len() - i,
    {
        if needle[i] != chars[at + i] {
            proof {
                assert(chars@.subrange(at as int, at + needle@.len())[i as int] != needle@[i as int]);
            }
            return false;
        }
        i += 1;
    }
    proof {
        assert(chars@.subrange(at as int, at + needle@.len()) =~= needle@);
    }
    true
}

/// Whether `needle` stands anywhere in `text`.
pub fn contains(text: &str, needle: &str) -> (yes: bool)
    ensures
        yes == holds(text@, needle@),
{
    let chars = chars_of(text);
    let part = chars_of(needle);
    let mut at: usize = 0;
    while at < chars.len()
        invariant
            at <= chars@.len(),
            chars@ == text@,
            part@ == needle@,
            forall|k: int| 0 <= k < at ==> !found_at(chars@, part@, k),
        decreases chars@.len() - at,
    {
        if matches_at(chars.as_slice(), part.as_slice(), at) {
            return true;
        }
        at += 1;
    }
    matches_at(chars.as_slice(), part.as_slice(), at)
}

/// The text with every occurrence of `from`, read left to right without overlap,
/// replaced by `to`.
pub open spec fn replaced(s: Seq<char>, from: Seq<char>, to: Seq<char>) -> Seq<char>
    decreases s.len(),
{
    if from.len() == 0 || s.len() == 0 {
        s
    } else if found_at(s, from, 0) {
        to + replaced(s.skip(from.len() as int), from, to)
    } else {
        seq![s[0]] + replaced(s.skip(1), from, to)
    }
}

/// The text with every occurrence of `from` replaced by `to`; an empty `from`
/// occurs nowhere.
pub fn replace(text: &str, from: &str, to: &str) -> (out: String)
    ensures
        out@ == replaced(text@, from@, to@),
{
    let chars = chars_of(text);
    let part = chars_of(from);
    let mut out = String::new();
    if part.len() == 0 {
        return text.to_owned();
    }
    let mut i: usize = 0;
    proof {
        assert(chars@.skip(0) =~= chars@);
    }
    while i < chars.len()
        invariant
            i <= chars@.len(),
            part@.len() > 0,
            part@ == from@,
            out@ + replaced(chars@.skip(i as int), from@, to@) == replaced(chars@, from@, to@),
        decreases chars@.len() - i,
    {
        let ghost rest = chars@.skip(i as int);
        let ghost before = out@;
        if matches_at(chars.as_slice(), part.as_slice(), i) {
            out.append(to);
            proof {
                assert(rest.subrange(0, part@.len() as int) =~= chars@.subrange(
                    i as int,
                    i + part@.len(),
                ));
                assert(rest.skip(part@.len() as int) =~= chars@.skip(i + part@.len()));
                assert(before + (to@ + replaced(rest.skip(part@.len() as int), from@, to@))
                    =~= (before + to@) + replaced(rest.skip(part@.len() as int), from@, to@));
            }
            i += part.len();
        } else {
            out.push(chars[i]);
            proof {
                assert(rest[0] == chars@[i as int]);
                if found_at(rest, from@, 0) {
                    assert(rest.subrange(0, part@.len() as int) =~= chars@.subrange(
                        i as int,
                        i + part@.len(),
                    ));
                }
                assert(rest.skip(1) =~= chars@.skip(i + 1));
                assert(before + (seq![rest[0]] + replaced(rest.skip(1), from@, to@)) =~= before.push(
                    rest[0],
                ) + replaced(rest.skip(1), from@, to@));
            }
            i += 1;
        }
    }
    proof {
        assert(chars@.skip(i as int) =~= Seq::<char>::empty());
        assert(out@ + Seq::<char>::empty() =~= out@);
    }
    out
}

/// The parts of a text between the occurrences of `sep`: always one more than
/// there are occurrences.
pub open spec fn split(s: Seq<char>, sep: char) -> Seq<Seq<char>>
    decreases s.len(),
{
    if s.len() == 0 {
        seq![s]
    } else {
        let rest = split(s.drop_last(), sep);
        if s.last() == sep {
            rest.push(Seq::empty())
        } else {
            rest.drop_last().push(rest.last().push(s.last()))
        }
    }
}

/// Splitting always gives at least one part.
pub proof fn lemma_split_nonempty(s: Seq<char>, sep: char)
    ensures
        split(s, sep).len() >= 1,
    decreases s.len(),
{
    if s.len() > 0 {
        lemma_split_nonempty(s.drop_last(), sep);
    }
}

/// The parts of `text` between the occurrences of `sep`.
pub fn split_on(text: &str, sep: char) -> (parts: Vec<String>)
    ensures
        views(parts@) == split(text@, sep),
        parts@.len() >= 1,
{
    let chars = chars_of(text);
    let mut parts: Vec<String> = Vec::new();
    let mut part = String::new();
    let mut i: usize = 0;
    proof {
        assert(chars@.take(0) =~= Seq::<char>::empty());
        assert(views(parts@).push(part@) =~= seq![Seq::<char>::empty()]);
    }
    while i < chars.len()
        invariant
            i <= chars@.len(),
            views(parts@).push(part@) == split(chars@.take(i as int), sep),
        decreases chars@.len() - i,
    {
        let c = chars[i];
        let ghost head = chars@.take(i as int);
        let ghost done = views(parts@);
        let ghost open = part@;
        proof {
            assert(chars@.take(i + 1) =~= head.push(c));
            assert(head.push(c).drop_last() =~= head);
            assert(done.push(open).drop_last() =~= done);
        }
        if c == sep {
            parts.push(part);
            part = String::new();
            proof {
                assert(views(parts@) =~= done.push(open));
            }
        } else {
            part.push(c);
        }
        i += 1;
    }
    proof {
        assert(chars@.take(i as int) =~= chars@);
    }
    let ghost done = views(parts@);
    let ghost open = part@;
    parts.push(part);
    proof {
        assert(views(parts@) =~= done.push(open));
        lemma_split_nonempty(text@, sep);
    }
    parts
}

/// The parts of a list with `sep` between each two of them.
pub open spec fn joined(parts: Seq<Seq<char>>, sep: Seq<char>) -> Seq<char>
    decreases parts.len(),
{
    if parts.len() == 0 {
        Seq::empty()
    } else if parts.len() == 1 {
        parts[0]
    } else {
        joined(parts.drop_last(), sep) + sep + parts.last()
    }
}

/// The parts of a list with `sep` between each two of them.
pub fn join(parts: &[String], sep: &str) -> (out: String)
    ensures
        out@ == joined(views(parts@), sep@),
{
    let mut out = String::new();
    let mut i: usize = 0;
    proof {
        assert(views(parts@).take(0) =~= Seq::<Seq<char>>::empty());
    }
    while i < parts.len()
        invariant
            i <= parts@.len(),
            out@ == joined(views(parts@).take(i as int), sep@),
        decreases parts@.len() - i,
    {
        let ghost head = views(parts@).take(i as int);
        proof {
            assert(views(parts@).take(i + 1) =~= head.push(parts@[i as int]@));
            assert(head.push(parts@[i as int]@).drop_last() =~= head);
        }
        if i > 0 {
            out.append(sep);
        }
        out.append(parts[i].as_str());
        proof {
            if i == 0 {
                assert(out@ =~= parts@[0]@);
            }
        }
        i += 1;
    }
    proof {
        assert(views(parts@).take(i as int) =~= views(parts@));
    }
    out
}

// ---------------------------------------------------------------------------
// Order
// ---------------------------------------------------------------------------

/// Whether `a` comes before `b`: character by character, a text before its
/// continuations.
pub open spec fn precedes(a: Seq<char>, b: Seq<char>) -> bool
    decreases a.len(),
{
    if b.len() == 0 {
        false
    } else if a.len() == 0 {
        true
    } else if a[0] == b[0] {
        precedes(a.skip(1), b.skip(1))
    } else {
        a[0] < b[0]
    }
}

/// Of two texts, exactly one comes first, or they are the same.
pub proof fn lemma_precedes_total(a: Seq<char>, b: Seq<char>)
    ensures
        precedes(a, b) ==> !precedes(b, a) && a != b,
        !precedes(a, b) && !precedes(b, a) ==> a == b,
    decreases a.len(),
{
    if a.len() > 0 && b.len() > 0 && a[0] == b[0] {
        lemma_precedes_total(a.skip(1), b.skip(1));
        if a.skip(1) == b.skip(1) {
            assert(a =~= seq![a[0]] + a.skip(1));
            assert(b =~= seq![b[0]] + b.skip(1));
        }
    } else if a.len() == 0 && b.len() == 0 {
        assert(a =~= b);
    }
}

/// The order of texts is transitive.
pub proof fn lemma_precedes_transitive(a: Seq<char>, b: Seq<char>, c: Seq<char>)
    requires
        precedes(a, b),
        precedes(b, c),
    ensures
        precedes(a, c),
    decreases a.len(),
{
    if a.len() > 0 && a[0] == b[0] && b[0] == c[0] {
        lemma_precedes_transitive(a.skip(1), b.skip(1), c.skip(1));
    }
}

/// Whether `a` comes before `b`.
pub fn comes_before(a: &str, b: &str) -> (yes: bool)
    ensures
        yes == precedes(a@, b@),
{
    let left = chars_of(a);
    let right = chars_of(b);
    let mut i: usize = 0;
    proof {
        assert(left@.skip(0) =~= left@);
        assert(right@.skip(0) =~= right@);
    }
    while i < left.len() && i < right.len()
        invariant
            i <= left@.len(),
            i <= right@.len(),
            left@ == a@,
            right@ == b@,
            precedes(left@, right@) == precedes(left@.skip(i as int), right@.skip(i as int)),
        decreases left@.len() - i,
    {
        proof {
            assert(left@.skip(i as int)[0] == left@[i as int]);
            assert(right@.skip(i as int)[0] == right@[i as int]);
            assert(left@.skip(i as int).skip(1) =~= left@.skip(i + 1));
            assert(right@.skip(i as int).skip(1) =~= right@.skip(i + 1));
        }
        if left[i] != right[i] {
            return left[i] < right[i];
        }
        i += 1;
    }
    i < right.len()
}

// ---------------------------------------------------------------------------
// Laws
// ---------------------------------------------------------------------------

/// Whether a text is white space from end to end.
pub open spec fn all_spaces(s: Seq<char>) -> bool {
    forall|i: int| 0 <= i < s.len() ==> is_space(#[trigger] s[i])
}

/// Whether `t` is `s` without the white space at its ends.
pub open spec fn spaces_cut(s: Seq<char>, t: Seq<char>) -> bool {
    exists|from: int, to: int|
        {
            &&& 0 <= from <= to <= s.len()
            &&& t == #[trigger] s.subrange(from, to)
            &&& forall|i: int| 0 <= i < from || to <= i < s.len() ==> is_space(#[trigger] s[i])
            &&& from < to ==> !is_space(s[from]) && !is_space(s[to - 1])
        }
}

proof fn lemma_trim_start_cut(s: Seq<char>) -> (from: int)
    ensures
        0 <= from <= s.len(),
        trim_start(s) == s.skip(from),
        forall|i: int| 0 <= i < from ==> is_space(#[trigger] s[i]),
        from < s.len() ==> !is_space(s[from]),
    decreases s.len(),
{
    if s.len() > 0 && is_space(s[0]) {
        let rest = s.skip(1);
        let k = lemma_trim_start_cut(rest);
        assert(rest.skip(k) =~= s.skip(k + 1));
        assert forall|i: int| 0 <= i < k + 1 implies is_space(#[trigger] s[i]) by {
            if i > 0 {
                assert(rest[i - 1] == s[i]);
            }
        }
        if k < rest.len() {
            assert(rest[k] == s[k + 1]);
        }
        k + 1
    } else {
        assert(s.skip(0) =~= s);
        0
    }
}

proof fn lemma_trim_end_cut(s: Seq<char>) -> (to: int)
    ensures
        0 <= to <= s.len(),
        trim_end(s) == s.take(to),
        forall|i: int| to <= i < s.len() ==> is_space(#[trigger] s[i]),
        to > 0 ==> !is_space(s[to - 1]),
    decreases s.len(),
{
    if s.len() > 0 && is_space(s.last()) {
        let head = s.drop_last();
        let k = lemma_trim_end_cut(head);
        assert(head.take(k) =~= s.take(k));
        assert forall|i: int| k <= i < s.len() implies is_space(#[trigger] s[i]) by {
            if i < head.len() {
                assert(head[i] == s[i]);
            }
        }
        k
    } else {
        assert(s.take(s.len() as int) =~= s);
        s.len() as int
    }
}

/// Trimming cuts the white space at both ends and nothing else; nothing is left exactly of
/// a text that is white space from end to end.
pub proof fn law_trimming_cuts_the_spaces(s: Seq<char>)
    ensures
        spaces_cut(s, trimmed(s)),
        trimmed(s).len() == 0 <==> all_spaces(s),
{
    let from = lemma_trim_start_cut(s);
    let rest = s.skip(from);
    let k = lemma_trim_end_cut(rest);
    let to = from + k;
    assert(rest.take(k) =~= s.subrange(from, to));
    assert forall|i: int| 0 <= i < from || to <= i < s.len() implies is_space(#[trigger] s[i]) by {
        if to <= i {
            assert(rest[i - from] == s[i]);
        }
    }
    if k > 0 {
        assert(rest[0] == s[from]);
        assert(rest[k - 1] == s[to - 1]);
    }
}

/// A text has one form without white space at its ends.
pub proof fn lemma_spaces_cut_once(s: Seq<char>, a: Seq<char>, b: Seq<char>)
    requires
        spaces_cut(s, a),
        spaces_cut(s, b),
    ensures
        a == b,
{
    let (from, to) = choose|from: int, to: int|
        {
            &&& 0 <= from <= to <= s.len()
            &&& a == #[trigger] s.subrange(from, to)
            &&& forall|i: int| 0 <= i < from || to <= i < s.len() ==> is_space(#[trigger] s[i])
            &&& from < to ==> !is_space(s[from]) && !is_space(s[to - 1])
        };
    let (from2, to2) = choose|from2: int, to2: int|
        {
            &&& 0 <= from2 <= to2 <= s.len()
            &&& b == #[trigger] s.subrange(from2, to2)
            &&& forall|i: int| 0 <= i < from2 || to2 <= i < s.len() ==> is_space(#[trigger] s[i])
            &&& from2 < to2 ==> !is_space(s[from2]) && !is_space(s[to2 - 1])
        };
    if from == to {
        assert(from2 == to2);
    } else if from2 == to2 {
        assert(is_space(s[from]));
    } else {
        assert(from == from2);
        assert(to == to2);
    }
    assert(a =~= b);
}

/// Splitting and joining undo each other, and no part has the separator in it.
pub proof fn law_splitting_is_undone_by_joining(s: Seq<char>, sep: char)
    ensures
        joined(split(s, sep), seq![sep]) == s,
        forall|i: int|
            0 <= i < split(s, sep).len() ==> !(#[trigger] split(s, sep)[i]).contains(sep),
    decreases s.len(),
{
    lemma_split_nonempty(s, sep);
    let parts = split(s, sep);
    if s.len() == 0 {
        assert(parts[0] =~= s);
    } else {
        let head = s.drop_last();
        let c = s.last();
        law_splitting_is_undone_by_joining(head, sep);
        lemma_split_nonempty(head, sep);
        let before = split(head, sep);
        assert(s =~= head.push(c));
        if c == sep {
            assert(parts.drop_last() =~= before);
            assert(joined(parts, seq![sep]) =~= head + seq![sep] + Seq::<char>::empty());
        } else {
            let last = before.last().push(c);
            assert(parts.drop_last() =~= before.drop_last());
            assert(parts.last() == last);
            if before.len() == 1 {
                assert(parts[0] =~= s);
            } else {
                assert(joined(parts, seq![sep]) =~= joined(before, seq![sep]).push(c));
            }
            assert forall|i: int| 0 <= i < parts.len() implies !(#[trigger] parts[i]).contains(
                sep,
            ) by {
                if i < parts.len() - 1 {
                    assert(parts[i] == before[i]);
                } else {
                    assert(!before[i].contains(sep));
                    assert forall|k: int| 0 <= k < last.len() implies last[k] != sep by {
                        if k < before[i].len() {
                            assert(before[i].contains(before[i][k]));
                        }
                    }
                }
            }
        }
    }
}

/// Lower-casing moves the letters from A to Z by the 32 places to their small forms, and
/// leaves every other character.
pub proof fn law_ascii_lowercase_moves_letters_only(s: Seq<char>, i: int)
    requires
        0 <= i < s.len(),
    ensures
        ascii_lowered(s).len() == s.len(),
        'A' <= s[i] <= 'Z' ==> ascii_lowered(s)[i] as u32 == s[i] as u32 + 32,
        !('A' <= s[i] <= 'Z') ==> ascii_lowered(s)[i] == s[i],
{
}

/// Whether `s[i..j]` stands between two separators, or a separator and an end, with none
/// inside.
pub open spec fn is_segment(s: Seq<char>, sep: char, i: int, j: int) -> bool {
    &&& 0 <= i <= j <= s.len()
    &&& i == 0 || s[i - 1] == sep
    &&& j == s.len() || s[j] == sep
    &&& forall|k: int| i <= k < j ==> #[trigger] s[k] != sep
}

/// Whatever stands between two separators is a part, the last one where it ends the text.
pub proof fn lemma_segment_is_a_part(s: Seq<char>, sep: char, i: int, j: int) -> (at: int)
    requires
        is_segment(s, sep, i, j),
    ensures
        0 <= at < split(s, sep).len(),
        split(s, sep)[at] == s.subrange(i, j),
        j == s.len() <==> at == split(s, sep).len() - 1,
    decreases s.len(),
{
    lemma_split_nonempty(s, sep);
    let parts = split(s, sep);
    if s.len() == 0 {
        assert(s.subrange(i, j) =~= s);
        0
    } else {
        let head = s.drop_last();
        let c = s.last();
        lemma_split_nonempty(head, sep);
        let before = split(head, sep);
        if j == s.len() {
            if i == j {
                assert(s.subrange(i, j) =~= Seq::<char>::empty());
            } else {
                assert(s[j - 1] == c);
                let at = lemma_segment_is_a_part(head, sep, i, j - 1);
                assert(head.subrange(i, j - 1).push(c) =~= s.subrange(i, j));
            }
            parts.len() - 1
        } else {
            let at = lemma_segment_is_a_part(head, sep, i, j);
            assert(head.subrange(i, j) =~= s.subrange(i, j));
            assert(parts[at] == before[at]);
            at
        }
    }
}

/// Every part stands between two separators, the last one at the end of the text.
pub proof fn lemma_part_is_a_segment(s: Seq<char>, sep: char, at: int) -> (ends: (int, int))
    requires
        0 <= at < split(s, sep).len(),
    ensures
        is_segment(s, sep, ends.0, ends.1),
        split(s, sep)[at] == s.subrange(ends.0, ends.1),
        ends.1 == s.len() <==> at == split(s, sep).len() - 1,
    decreases s.len(),
{
    lemma_split_nonempty(s, sep);
    let parts = split(s, sep);
    if s.len() == 0 {
        assert(s.subrange(0, 0) =~= s);
        (0, 0)
    } else {
        let head = s.drop_last();
        let c = s.last();
        lemma_split_nonempty(head, sep);
        let before = split(head, sep);
        let n = s.len() as int;
        if at == parts.len() - 1 {
            if c == sep {
                assert(s.subrange(n, n) =~= Seq::<char>::empty());
                (n, n)
            } else {
                let (i, j) = lemma_part_is_a_segment(head, sep, at);
                assert(head.subrange(i, j).push(c) =~= s.subrange(i, n));
                assert forall|k: int| i <= k < n implies #[trigger] s[k] != sep by {
                    if k < n - 1 {
                        assert(head[k] == s[k]);
                    }
                }
                if i > 0 {
                    assert(head[i - 1] == s[i - 1]);
                }
                (i, n)
            }
        } else {
            let (i, j) = lemma_part_is_a_segment(head, sep, at);
            assert(parts[at] == before[at]);
            assert(head.subrange(i, j) =~= s.subrange(i, j));
            assert forall|k: int| i <= k < j implies #[trigger] s[k] != sep by {
                assert(head[k] == s[k]);
            }
            if i > 0 {
                assert(head[i - 1] == s[i - 1]);
            }
            if j < head.len() {
                assert(head[j] == s[j]);
            }
            (i, j)
        }
    }
}

/// Joining and splitting undo each other where no part has the separator in it: what a list
/// of such parts is joined to can be taken apart again.
pub proof fn law_joining_is_undone_by_splitting(parts: Seq<Seq<char>>, sep: char)
    requires
        parts.len() > 0,
        forall|i: int| 0 <= i < parts.len() ==> !(#[trigger] parts[i]).contains(sep),
    ensures
        split(joined(parts, seq![sep]), sep) == parts,
    decreases parts.len(),
{
    let last = parts.last();
    assert(last == parts[parts.len() - 1]);
    if parts.len() == 1 {
        lemma_split_after(Seq::empty(), last, sep);
        assert(parts =~= seq![last]);
    } else {
        let before = parts.drop_last();
        assert(forall|i: int| 0 <= i < before.len() ==> #[trigger] before[i] == parts[i]);
        law_joining_is_undone_by_splitting(before, sep);
        let head = joined(before, seq![sep]);
        assert(joined(parts, seq![sep]) =~= head.push(sep) + last);
        lemma_split_after(head.push(sep), last, sep);
        assert(head.push(sep).drop_last() =~= head);
        assert(split(head.push(sep), sep) == split(head, sep).push(Seq::empty()));
        assert(before.push(Seq::empty()).drop_last() =~= before);
        assert(Seq::<char>::empty() + last =~= last);
        assert(before.push(last) =~= parts);
    }
}

proof fn lemma_split_after(a: Seq<char>, b: Seq<char>, sep: char)
    requires
        !b.contains(sep),
    ensures
        split(a + b, sep) == split(a, sep).drop_last().push(split(a, sep).last() + b),
        a.len() == 0 ==> split(a + b, sep) == seq![b],
    decreases b.len(),
{
    lemma_split_nonempty(a, sep);
    let head = split(a, sep);
    if b.len() == 0 {
        assert(a + b =~= a);
        assert(head.last() + b =~= head.last());
        assert(head.drop_last().push(head.last()) =~= head);
        if a.len() == 0 {
            assert(a =~= b);
            assert(head =~= seq![b]);
        }
    } else {
        let c = b.last();
        assert(b.contains(b[b.len() - 1]));
        assert(!b.drop_last().contains(sep)) by {
            assert forall|k: int| 0 <= k < b.drop_last().len() implies b.drop_last()[k] != sep by {
                assert(b.contains(b[k]));
            }
        }
        lemma_split_after(a, b.drop_last(), sep);
        assert((a + b).drop_last() =~= a + b.drop_last());
        let before = head.drop_last().push(head.last() + b.drop_last());
        assert(before.drop_last() =~= head.drop_last());
        assert((head.last() + b.drop_last()).push(c) =~= head.last() + b);
        if a.len() == 0 {
            assert(a =~= Seq::<char>::empty());
            assert(head =~= seq![Seq::<char>::empty()]);
            assert(head.drop_last() =~= Seq::<Seq<char>>::empty());
            assert(head.last() + b =~= b);
            assert(split(a + b, sep) =~= seq![b]);
        }
    }
}

/// Every occurrence is replaced, the first one and those after it: what stands before the
/// first stays, and what stands after it is treated alike. Without an occurrence nothing
/// changes.
pub proof fn law_every_occurrence_is_replaced(a: Seq<char>, from: Seq<char>, to: Seq<char>, b: Seq<char>)
    requires
        from.len() > 0,
    ensures
        (forall|k: int| 0 <= k < a.len() ==> !#[trigger] found_at(a + from + b, from, k))
            ==> replaced(a + from + b, from, to) == a + to + replaced(b, from, to),
        (forall|k: int| 0 <= k < a.len() ==> !#[trigger] found_at(a, from, k)) ==> replaced(
            a,
            from,
            to,
        ) == a,
    decreases a.len(),
{
    let s = a + from + b;
    if a.len() == 0 {
        assert(s.subrange(0, from.len() as int) =~= from);
        assert(s.skip(from.len() as int) =~= b);
        assert(a + to + replaced(b, from, to) =~= to + replaced(b, from, to));
    } else {
        let rest = a.skip(1);
        law_every_occurrence_is_replaced(rest, from, to, b);
        if forall|k: int| 0 <= k < a.len() ==> !#[trigger] found_at(s, from, k) {
            assert(s.skip(1) =~= rest + from + b);
            assert forall|k: int| 0 <= k < rest.len() implies !#[trigger] found_at(
                rest + from + b,
                from,
                k,
            ) by {
                assert(!found_at(s, from, k + 1));
                if k + from.len() <= (rest + from + b).len() {
                    assert(s.subrange(k + 1, k + 1 + from.len()) =~= (rest + from + b).subrange(
                        k,
                        k + from.len(),
                    ));
                }
            }
            assert(!found_at(s, from, 0));
            assert(seq![a[0]] + (rest + to + replaced(b, from, to)) =~= a + to + replaced(
                b,
                from,
                to,
            ));
        }
        if forall|k: int| 0 <= k < a.len() ==> !#[trigger] found_at(a, from, k) {
            assert forall|k: int| 0 <= k < rest.len() implies !#[trigger] found_at(
                rest,
                from,
                k,
            ) by {
                assert(!found_at(a, from, k + 1));
                if k + from.len() <= rest.len() {
                    assert(a.subrange(k + 1, k + 1 + from.len()) =~= rest.subrange(
                        k,
                        k + from.len(),
                    ));
                }
            }
            assert(!found_at(a, from, 0));
            assert(seq![a[0]] + rest =~= a);
        }
    }
}

} // verus!
