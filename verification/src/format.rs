//! Human-readable rendering of the numbers a task carries, and the
//! display-width-correct truncation and wrapping the screens depend on.
//!
//! * Sizes are binary (1 KiB = 1024 B). Byte counts render as whole numbers at `B`
//!   and `KiB` and gain one decimal from `MiB` upward.
//! * "Nothing here" and "unknown" are distinct: a zero speed is [`DASH`], an
//!   unknowable duration is [`INFINITY`].
//!
//! Widths are terminal cells, as the crate `unicode_width` counts them, never
//! characters or bytes.

use vstd::prelude::*;
use vstd::string::StringExecFns;
use unicode_width::UnicodeWidthStr;
use crate::text::{
    chars_of, decimal, decimal_of, is_space, joined, space, text_of, views,
};

verus! {

/// Shown where a value exists but is zero, an idle transfer rate mostly.
pub const DASH: &'static str = "—";

/// Shown where a value cannot be known: an ETA with no speed to divide by.
pub const INFINITY: &'static str = "∞";

/// The truncation marker.
pub const ELLIPSIS: &'static str = "…";

/// The occupied run of a bar. One cell wide.
pub const GAUGE_FILLED: char = '█';

/// The free run of a bar. One cell wide.
pub const GAUGE_EMPTY: char = '░';

// ---------------------------------------------------------------------------
// Byte counts
// ---------------------------------------------------------------------------

/// `a / s` rounded to the nearest integer, a tie to the even one.
pub open spec fn half_even(a: nat, s: nat) -> nat {
    if 2 * (a % s) > s || (2 * (a % s) == s && (a / s) % 2 == 1) {
        a / s + 1
    } else {
        a / s
    }
}

/// `a / s` rounded to the nearest integer, a tie upward.
pub open spec fn half_up(a: nat, s: nat) -> nat {
    (2 * a + s) / (2 * s)
}

/// The weight of the last of the 53 leading binary digits of `n`.
pub open spec fn last_place(n: nat) -> nat
    decreases n,
{
    if n < 0x20_0000_0000_0000 {
        1
    } else {
        2 * last_place(n / 2)
    }
}

/// `n` to the 53 binary digits that a double-precision number holds.
pub open spec fn double_of(n: nat) -> nat {
    half_even(n, last_place(n)) * last_place(n)
}

/// How many bytes the size unit of this index stands for.
pub open spec fn unit_bytes(unit: nat) -> nat {
    if unit == 0 {
        1
    } else if unit == 1 {
        0x400
    } else if unit == 2 {
        0x10_0000
    } else if unit == 3 {
        0x4000_0000
    } else {
        0x100_0000_0000
    }
}

/// The name of the size unit of this index.
pub open spec fn unit_text(unit: nat) -> Seq<char> {
    if unit == 0 {
        "B"@
    } else if unit == 1 {
        "KiB"@
    } else if unit == 2 {
        "MiB"@
    } else if unit == 3 {
        "GiB"@
    } else {
        "TiB"@
    }
}

/// Whether `n` bytes, rounded to the digits shown in this unit, reach 1024 of it.
pub open spec fn overflows_unit(n: nat, unit: nat) -> bool {
    if unit < 2 {
        half_up(n, unit_bytes(unit)) >= 1024
    } else {
        half_up(10 * n, unit_bytes(unit)) >= 10240
    }
}

/// The unit `n` bytes are shown in: the first, from `unit` on, in which they stay
/// below 1024; `TiB` is the last.
pub open spec fn unit_for(n: nat, unit: nat) -> nat
    decreases 4 - unit,
{
    if unit < 4 && overflows_unit(n, unit) {
        unit_for(n, unit + 1)
    } else {
        unit
    }
}

/// `n` bytes in words: `0 B`, `640 KiB`, `5.8 GiB`.
pub open spec fn bytes_text(n: nat) -> Seq<char> {
    let value = double_of(n);
    let unit = unit_for(value, 0);
    let number = if unit < 2 {
        decimal(half_even(value, unit_bytes(unit)))
    } else {
        let tenths = half_even(10 * value, unit_bytes(unit));
        decimal(tenths / 10) + "."@ + decimal(tenths % 10)
    };
    number + " "@ + unit_text(unit)
}

/// See [`last_place`].
fn last_place_of(n: u64) -> (u: u64)
    ensures
        u == last_place(n as nat),
        1 <= u <= 2048,
        n < u * 0x20_0000_0000_0000,
{
    if n < 0x20_0000_0000_0000 {
        1
    } else if n < 0x40_0000_0000_0000 {
        proof {
            reveal_with_fuel(last_place, 2);
        }
        2
    } else if n < 0x80_0000_0000_0000 {
        proof {
            reveal_with_fuel(last_place, 3);
        }
        4
    } else if n < 0x100_0000_0000_0000 {
        proof {
            reveal_with_fuel(last_place, 4);
        }
        8
    } else if n < 0x200_0000_0000_0000 {
        proof {
            reveal_with_fuel(last_place, 5);
        }
        16
    } else if n < 0x400_0000_0000_0000 {
        proof {
            reveal_with_fuel(last_place, 6);
        }
        32
    } else if n < 0x800_0000_0000_0000 {
        proof {
            reveal_with_fuel(last_place, 7);
        }
        64
    } else if n < 0x1000_0000_0000_0000 {
        proof {
            reveal_with_fuel(last_place, 8);
        }
        128
    } else if n < 0x2000_0000_0000_0000 {
        proof {
            reveal_with_fuel(last_place, 9);
        }
        256
    } else if n < 0x4000_0000_0000_0000 {
        proof {
            reveal_with_fuel(last_place, 10);
        }
        512
    } else if n < 0x8000_0000_0000_0000 {
        proof {
            reveal_with_fuel(last_place, 11);
        }
        1024
    } else {
        proof {
            reveal_with_fuel(last_place, 12);
        }
        2048
    }
}

/// See [`half_even`].
fn round_half_even(a: u128, s: u128) -> (q: u128)
    requires
        0 < s <= 0x100_0000_0000,
        a <= 0xffff_ffff_ffff_ffff_ffff,
    ensures
        q == half_even(a as nat, s as nat),
        q <= a + 1,
{
    let whole: u128 = a / s;
    let rest: u128 = a % s;
    proof {
        assert(a / s <= a) by (nonlinear_arith)
            requires
                s > 0,
        ;
        assert(a % s < s) by (nonlinear_arith)
            requires
                s > 0,
        ;
    }
    if 2 * rest > s || (2 * rest == s && whole % 2 == 1) {
        whole + 1
    } else {
        whole
    }
}

/// See [`unit_bytes`].
fn bytes_of_unit(unit: usize) -> (scale: u128)
    requires
        unit <= 4,
    ensures
        scale == unit_bytes(unit as nat),
        1 <= scale <= 0x100_0000_0000,
{
    if unit == 0 {
        1
    } else if unit == 1 {
        0x400
    } else if unit == 2 {
        0x10_0000
    } else if unit == 3 {
        0x4000_0000
    } else {
        0x100_0000_0000
    }
}

/// See [`unit_text`].
fn name_of_unit(unit: usize) -> (name: &'static str)
    requires
        unit <= 4,
    ensures
        name@ == unit_text(unit as nat),
{
    if unit == 0 {
        "B"
    } else if unit == 1 {
        "KiB"
    } else if unit == 2 {
        "MiB"
    } else if unit == 3 {
        "GiB"
    } else {
        "TiB"
    }
}

/// See [`overflows_unit`].
fn reaches_next_unit(value: u128, unit: usize) -> (yes: bool)
    requires
        unit <= 4,
        value <= 0x1_0000_0000_0000_0000,
    ensures
        yes == overflows_unit(value as nat, unit as nat),
{
    let scale: u128 = bytes_of_unit(unit);
    if unit < 2 {
        (2 * value + scale) / (2 * scale) >= 1024
    } else {
        (2 * (10 * value) + scale) / (2 * scale) >= 10240
    }
}

/// A byte count as `0 B`, `640 KiB`, `5.8 GiB`.
///
/// The unit is chosen *after* rounding, so a value that would render as
/// `1024.0 MiB` is promoted to `1.0 GiB` instead. The count is first taken to the
/// 53 binary digits of a double-precision number, which only matters above 8 PiB.
pub fn bytes(n: u64) -> (text: String)
    ensures
        text@ == bytes_text(n as nat),
{
    let place: u64 = last_place_of(n);
    let leading: u128 = round_half_even(n as u128, place as u128);
    proof {
        let q = (n as nat) / (place as nat);
        assert(q < 0x20_0000_0000_0000) by (nonlinear_arith)
            requires
                q == (n as nat) / (place as nat),
                n < place * 0x20_0000_0000_0000,
                place > 0,
        ;
        assert(leading <= q + 1);
        assert(leading * place <= 0x1_0000_0000_0000_0000) by (nonlinear_arith)
            requires
                leading <= 0x20_0000_0000_0000,
                place <= 2048,
        ;
    }
    let value: u128 = leading * place as u128;
    let mut unit: usize = 0;
    while unit < 4 && reaches_next_unit(value, unit)
        invariant
            unit <= 4,
            value <= 0x1_0000_0000_0000_0000,
            unit_for(value as nat, 0) == unit_for(value as nat, unit as nat),
        decreases 4 - unit,
    {
        unit += 1;
    }
    let scale: u128 = bytes_of_unit(unit);
    let mut text = if unit < 2 {
        let shown: u128 = round_half_even(value, scale);
        proof {
            lemma_shown_fits(value as nat, unit as nat);
        }
        decimal_of(shown as u64)
    } else {
        let tenths: u128 = round_half_even(10 * value, scale);
        proof {
            lemma_shown_fits(value as nat, unit as nat);
        }
        let mut number = decimal_of((tenths / 10) as u64);
        let tenth = decimal_of((tenths % 10) as u64);
        number.append(".");
        number.append(tenth.as_str());
        number
    };
    text.append(" ");
    text.append(name_of_unit(unit));
    text
}

/// What is shown of a byte count fits in 64 bits in every unit.
proof fn lemma_shown_fits(value: nat, unit: nat)
    requires
        value <= 0x1_0000_0000_0000_0000,
        unit <= 4,
        unit < 4 ==> !overflows_unit(value, unit),
    ensures
        unit < 2 ==> half_even(value, unit_bytes(unit)) <= 0xffff_ffff_ffff_ffff,
        unit >= 2 ==> half_even(10 * value, unit_bytes(unit)) <= 0xffff_ffff_ffff_ffff,
{
    if unit == 0 {
        assert(unit_bytes(unit) == 1);
        assert((2 * value + 1) / 2 < 1024);
        assert(value < 1024);
        assert(half_even(value, 1) <= value / 1 + 1);
    } else if unit == 1 {
        assert(unit_bytes(unit) == 0x400);
        assert(half_even(value, 0x400) <= value / 0x400 + 1);
    } else if unit == 2 {
        assert(unit_bytes(unit) == 0x10_0000);
        assert(half_even(10 * value, 0x10_0000) <= (10 * value) / 0x10_0000 + 1);
    } else if unit == 3 {
        assert(unit_bytes(unit) == 0x4000_0000);
        assert(half_even(10 * value, 0x4000_0000) <= (10 * value) / 0x4000_0000 + 1);
    } else {
        assert(unit_bytes(unit) == 0x100_0000_0000);
        assert(half_even(10 * value, 0x100_0000_0000) <= (10 * value) / 0x100_0000_0000 + 1);
    }
}

/// Where the search for a unit stops.
proof fn lemma_unit_stops(n: nat, unit: nat)
    requires
        unit <= 4,
    ensures
        unit <= unit_for(n, unit) <= 4,
        unit_for(n, unit) < 4 ==> !overflows_unit(n, unit_for(n, unit)),
    decreases 4 - unit,
{
    if unit < 4 && overflows_unit(n, unit) {
        lemma_unit_stops(n, unit + 1);
    }
}

/// A tie to the even integer never rounds to more than a tie upward.
proof fn lemma_half_even_below(a: nat, s: nat)
    requires
        s > 0,
    ensures
        half_even(a, s) <= half_up(a, s),
{
    let q = a / s;
    let r = a % s;
    assert(a == q * s + r && 0 <= r < s) by (nonlinear_arith)
        requires
            q == a / s,
            r == a % s,
            s > 0,
    ;
    let k: nat = if 2 * r >= s {
        q + 1
    } else {
        q
    };
    assert(2 * a + s >= k * (2 * s)) by (nonlinear_arith)
        requires
            a == q * s + r,
            k == q + 1 && 2 * r >= s || k == q,
            r >= 0,
            s > 0,
    ;
    assert((2 * a + s) / (2 * s) >= k) by (nonlinear_arith)
        requires
            2 * a + s >= k * (2 * s),
            s > 0,
    ;
}

/// No number shown reaches the next unit: below `TiB` it is always less than 1024, with
/// its decimal where it has one.
pub proof fn law_no_number_reaches_the_next_unit(n: nat)
    ensures
        ({
            let value = double_of(n);
            let unit = unit_for(value, 0);
            &&& unit < 2 ==> half_even(value, unit_bytes(unit)) < 1024
            &&& 2 <= unit < 4 ==> half_even(10 * value, unit_bytes(unit)) < 10240
        }),
{
    let value = double_of(n);
    let unit = unit_for(value, 0);
    lemma_unit_stops(value, 0);
    lemma_half_even_below(value, unit_bytes(unit));
    lemma_half_even_below(10 * value, unit_bytes(unit));
}

/// A transfer rate as `5.8 MiB/s`, or [`DASH`] when nothing is moving.
pub fn speed(n: u64) -> (text: String)
    ensures
        text@ == if n == 0 {
            DASH@
        } else {
            bytes_text(n as nat) + "/s"@
        },
{
    if n == 0 {
        return DASH.to_owned();
    }
    let mut text = bytes(n);
    text.append("/s");
    text
}

// ---------------------------------------------------------------------------
// Durations
// ---------------------------------------------------------------------------

/// Two counts with their unit letters: `2h 14m`.
pub open spec fn two_units(a: nat, a_unit: Seq<char>, b: nat, b_unit: Seq<char>) -> Seq<char> {
    decimal(a) + a_unit + " "@ + decimal(b) + b_unit
}

/// A duration in seconds as at most two units.
pub open spec fn duration_text(secs: Option<u64>) -> Seq<char> {
    match secs {
        None => INFINITY@,
        Some(s) => {
            let n = s as nat;
            if n < 60 {
                decimal(n) + "s"@
            } else if n < 3600 {
                two_units(n / 60, "m"@, n % 60, "s"@)
            } else if n < 86400 {
                two_units(n / 3600, "h"@, (n % 3600) / 60, "m"@)
            } else {
                two_units(n / 86400, "d"@, (n % 86400) / 3600, "h"@)
            }
        },
    }
}

/// See [`two_units`].
fn in_two_units(a: u64, a_unit: &str, b: u64, b_unit: &str) -> (text: String)
    ensures
        text@ == two_units(a as nat, a_unit@, b as nat, b_unit@),
{
    let mut text = decimal_of(a);
    let second = decimal_of(b);
    text.append(a_unit);
    text.append(" ");
    text.append(second.as_str());
    text.append(b_unit);
    text
}

/// A duration in seconds as at most two units (`45s`, `14m 5s`, `2h 14m`,
/// `3d 4h`), or [`INFINITY`] when it is unknown.
pub fn duration(secs: Option<u64>) -> (text: String)
    ensures
        text@ == duration_text(secs),
{
    match secs {
        None => INFINITY.to_owned(),
        Some(secs) => {
            if secs < 60 {
                let mut text = decimal_of(secs);
                text.append("s");
                text
            } else if secs < 3600 {
                in_two_units(secs / 60, "m", secs % 60, "s")
            } else if secs < 86400 {
                in_two_units(secs / 3600, "h", (secs % 3600) / 60, "m")
            } else {
                in_two_units(secs / 86400, "d", (secs % 86400) / 3600, "h")
            }
        },
    }
}

// ---------------------------------------------------------------------------
// Widths
// ---------------------------------------------------------------------------

/// How many terminal cells a text takes, as `unicode_width` counts them.
pub uninterp spec fn text_width(text: Seq<char>) -> nat;

/// A character whose width in a text never depends on its neighbours: printable
/// ASCII, and the truncation marker.
pub open spec fn plain(c: char) -> bool {
    ' ' <= c <= '~' || c == '…'
}

/// Whether every character of a text is plain.
pub open spec fn all_plain(s: Seq<char>) -> bool {
    forall|i: int| 0 <= i < s.len() ==> plain(#[trigger] s[i])
}

/// `UnicodeWidthStr::width`: the cells a text takes. A text of plain characters
/// takes one cell for each; how ligatures and emoji sequences count is not stated.
#[verifier::external_body]
fn str_cells(text: &str) -> (width: usize)
    ensures
        width == text_width(text@),
        all_plain(text@) ==> width == text@.len(),
{
    UnicodeWidthStr::width(text)
}

/// Width of `text` in terminal cells.
pub fn display_width(text: &str) -> (width: usize)
    ensures
        width == text_width(text@),
        all_plain(text@) ==> width == text@.len(),
{
    str_cells(text)
}

// ---------------------------------------------------------------------------
// Truncation
// ---------------------------------------------------------------------------

/// How many leading characters of a text are kept before the marker, from `kept` on:
/// one more as long as it still fits in `max_width` cells together with the marker.
pub open spec fn kept_from(s: Seq<char>, kept: int, max_width: nat) -> int
    decreases s.len() - kept,
{
    if 0 <= kept < s.len() && text_width(s.take(kept + 1) + ELLIPSIS@) <= max_width {
        kept_from(s, kept + 1, max_width)
    } else {
        kept
    }
}

/// A text shortened to `max_width` cells: itself where it fits, nothing where not
/// even the marker does, else as many leading characters as fit with the marker.
pub open spec fn truncated(s: Seq<char>, max_width: nat) -> Seq<char> {
    if text_width(s) <= max_width {
        s
    } else if max_width < text_width(ELLIPSIS@) {
        Seq::empty()
    } else {
        s.take(kept_from(s, 0, max_width)) + ELLIPSIS@
    }
}

/// What [`truncated`] comes to where every character takes one cell.
pub open spec fn clipped(s: Seq<char>, max_width: nat) -> Seq<char> {
    if s.len() <= max_width {
        s
    } else if max_width == 0 {
        Seq::empty()
    } else {
        s.take(max_width - 1) + ELLIPSIS@
    }
}

/// An empty text, which takes no cells.
fn blank() -> (text: String)
    ensures
        text@ == Seq::<char>::empty(),
        text_width(text@) == 0,
{
    let text = String::new();
    proof {
        assert(text@ =~= Seq::<char>::empty());
    }
    let width = display_width(text.as_str());
    proof {
        assert(width == 0);
    }
    text
}

/// `text` shortened to at most `max_width` terminal cells, with [`ELLIPSIS`]
/// marking the cut. Text that already fits is returned unchanged, and a width too
/// small for the marker itself yields an empty string. The result is never wider than
/// `max_width`.
pub fn truncate_ellipsis(text: &str, max_width: usize) -> (out: String)
    ensures
        out@ == truncated(text@, max_width as nat),
        text_width(out@) <= max_width,
        all_plain(text@) ==> out@ == clipped(text@, max_width as nat),
{
    proof {
        reveal_strlit("…");
        assert(all_plain(ELLIPSIS@));
    }
    if display_width(text) <= max_width {
        return text.to_owned();
    }
    if max_width < display_width(ELLIPSIS) {
        return blank();
    }
    let chars = chars_of(text);
    let mut kept = String::new();
    let mut out = ELLIPSIS.to_owned();
    let mut i: usize = 0;
    proof {
        assert(kept@ =~= chars@.take(0));
        assert(out@ =~= kept@ + ELLIPSIS@);
    }
    while i < chars.len()
        invariant_except_break
            i <= chars@.len(),
            kept@ == chars@.take(i as int),
            out@ == kept@ + ELLIPSIS@,
            text_width(out@) <= max_width,
            kept_from(chars@, 0, max_width as nat) == kept_from(
                chars@,
                i as int,
                max_width as nat,
            ),
            all_plain(chars@) ==> i < max_width,
            all_plain(chars@) ==> chars@.len() > max_width,
            ELLIPSIS@.len() == 1,
            all_plain(ELLIPSIS@),
        ensures
            out@ == chars@.take(kept_from(chars@, 0, max_width as nat)) + ELLIPSIS@,
            text_width(out@) <= max_width,
            all_plain(chars@) ==> out@ == clipped(chars@, max_width as nat),
        decreases chars@.len() - i,
    {
        kept.push(chars[i]);
        let mut next = kept.clone();
        next.append(ELLIPSIS);
        let width = display_width(next.as_str());
        proof {
            assert(kept@ =~= chars@.take(i + 1));
            if all_plain(chars@) {
                assert(all_plain(next@)) by {
                    assert forall|k: int| 0 <= k < next@.len() implies plain(
                        #[trigger] next@[k],
                    ) by {
                        if k <= i {
                            assert(next@[k] == chars@[k]);
                        } else {
                            assert(next@[k] == ELLIPSIS@[0]);
                        }
                    }
                }
                assert(width == i + 2);
            }
        }
        if width > max_width {
            break;
        }
        out = next;
        i += 1;
    }
    out
}

// ---------------------------------------------------------------------------
// Wrapping
// ---------------------------------------------------------------------------

/// The finished words of a text read so far, and the word being read.
pub open spec fn scan_words(s: Seq<char>) -> (Seq<Seq<char>>, Seq<char>)
    decreases s.len(),
{
    if s.len() == 0 {
        (Seq::empty(), Seq::empty())
    } else {
        let (done, open) = scan_words(s.drop_last());
        if !is_space(s.last()) {
            (done, open.push(s.last()))
        } else if open.len() > 0 {
            (done.push(open), Seq::empty())
        } else {
            (done, open)
        }
    }
}

/// The words of a text: its longest runs of characters that are not white space.
pub open spec fn words(s: Seq<char>) -> Seq<Seq<char>> {
    let (done, open) = scan_words(s);
    if open.len() > 0 {
        done.push(open)
    } else {
        done
    }
}

/// Whether every character of every text is plain.
pub open spec fn every_plain(list: Seq<Seq<char>>) -> bool {
    forall|i: int| 0 <= i < list.len() ==> all_plain(#[trigger] list[i])
}

/// Whether every character of every text is plain, and none has more than so many.
pub open spec fn plain_within(list: Seq<Seq<char>>, max_width: nat) -> bool {
    forall|i: int|
        0 <= i < list.len() ==> all_plain(#[trigger] list[i]) && list[i].len() <= max_width
}

/// The words of `text`.
fn words_of(text: &str) -> (list: Vec<String>)
    ensures
        views(list@) == words(text@),
        all_plain(text@) ==> every_plain(views(list@)),
{
    let chars = chars_of(text);
    let mut list: Vec<String> = Vec::new();
    let mut open: Vec<char> = Vec::new();
    let mut i: usize = 0;
    proof {
        assert(chars@.take(0) =~= Seq::<char>::empty());
        assert(views(list@) =~= Seq::<Seq<char>>::empty());
        assert(open@ =~= Seq::<char>::empty());
    }
    while i < chars.len()
        invariant
            i <= chars@.len(),
            (views(list@), open@) == scan_words(chars@.take(i as int)),
            all_plain(chars@) ==> every_plain(views(list@)) && all_plain(open@),
        decreases chars@.len() - i,
    {
        let c = chars[i];
        let ghost done = views(list@);
        proof {
            assert(chars@.take(i + 1).drop_last() =~= chars@.take(i as int));
            assert(chars@.take(i + 1).last() == c);
        }
        if !space(c) {
            open.push(c);
        } else if open.len() > 0 {
            let word = text_of(open.as_slice());
            list.push(word);
            proof {
                assert(views(list@) =~= done.push(open@));
            }
            open = Vec::new();
            proof {
                assert(open@ =~= Seq::<char>::empty());
            }
        }
        i += 1;
    }
    proof {
        assert(chars@.take(i as int) =~= chars@);
    }
    if open.len() > 0 {
        let ghost done = views(list@);
        let word = text_of(open.as_slice());
        list.push(word);
        proof {
            assert(views(list@) =~= done.push(open@));
        }
    }
    list
}

/// The finished pieces of a word read so far, and the piece being filled, where each
/// stands in a line after `lead`.
pub open spec fn scan_pieces(word: Seq<char>, lead: Seq<char>, max_width: nat) -> (
    Seq<Seq<char>>,
    Seq<char>,
)
    decreases word.len(),
{
    if word.len() == 0 {
        (Seq::empty(), Seq::empty())
    } else {
        let (done, piece) = scan_pieces(word.drop_last(), lead, max_width);
        let c = word.last();
        if piece.len() > 0 && text_width(lead + piece.push(c)) > max_width {
            (done.push(piece), seq![c])
        } else {
            (done, piece.push(c))
        }
    }
}

/// A word as pieces that fit in a line after `lead`, itself where it fits: each piece
/// but the last takes as many characters as fit, and at least one.
pub open spec fn pieces(word: Seq<char>, lead: Seq<char>, max_width: nat) -> Seq<Seq<char>> {
    if max_width == 0 || text_width(lead + word) <= max_width {
        seq![word]
    } else {
        let (done, piece) = scan_pieces(word, lead, max_width);
        if piece.len() > 0 {
            done.push(piece)
        } else {
            done
        }
    }
}

/// Whether a piece fits in a line after `lead`, or is a single character.
pub open spec fn piece_fits(piece: Seq<char>, lead: Seq<char>, max_width: nat) -> bool {
    text_width(lead + piece) <= max_width || piece.len() == 1
}

/// Every piece of a word fits, but for a character that is wider than the line.
pub proof fn lemma_pieces_fit(word: Seq<char>, lead: Seq<char>, max_width: nat)
    requires
        max_width > 0,
    ensures
        forall|i: int|
            0 <= i < pieces(word, lead, max_width).len() ==> piece_fits(
                #[trigger] pieces(word, lead, max_width)[i],
                lead,
                max_width,
            ),
        forall|i: int|
            0 <= i < scan_pieces(word, lead, max_width).0.len() ==> piece_fits(
                #[trigger] scan_pieces(word, lead, max_width).0[i],
                lead,
                max_width,
            ),
        scan_pieces(word, lead, max_width).1.len() == 0 || piece_fits(
            scan_pieces(word, lead, max_width).1,
            lead,
            max_width,
        ),
    decreases word.len(),
{
    if word.len() > 0 {
        lemma_pieces_fit(word.drop_last(), lead, max_width);
    }
}

/// `word` as pieces that fit in a line after `lead`. See [`pieces`].
fn break_word(word: &str, lead: &str, max_width: usize) -> (list: Vec<String>)
    ensures
        views(list@) == pieces(word@, lead@, max_width as nat),
        all_plain(word@) && all_plain(lead@) && lead@.len() < max_width ==> plain_within(
            views(list@),
            (max_width - lead@.len()) as nat,
        ),
{
    let mut list: Vec<String> = Vec::new();
    let mut line = lead.to_owned();
    line.append(word);
    let width = display_width(line.as_str());
    proof {
        if all_plain(word@) && all_plain(lead@) {
            lemma_plain_concat(lead@, word@);
        }
    }
    if max_width == 0 || width <= max_width {
        list.push(word.to_owned());
        proof {
            assert(views(list@) =~= seq![word@]);
        }
        return list;
    }
    let chars = chars_of(word);
    let mut piece = String::new();
    let mut piece_empty: bool = true;
    let mut i: usize = 0;
    proof {
        assert(chars@.take(0) =~= Seq::<char>::empty());
        assert(views(list@) =~= Seq::<Seq<char>>::empty());
        assert(piece@ =~= Seq::<char>::empty());
    }
    while i < chars.len()
        invariant
            i <= chars@.len(),
            max_width > 0,
            piece_empty == (piece@.len() == 0),
            (views(list@), piece@) == scan_pieces(
                chars@.take(i as int),
                lead@,
                max_width as nat,
            ),
            all_plain(chars@) && all_plain(lead@) && lead@.len() < max_width ==> plain_within(
                views(list@),
                (max_width - lead@.len()) as nat,
            ) && all_plain(piece@) && lead@.len() + piece@.len() <= max_width,
        decreases chars@.len() - i,
    {
        let c = chars[i];
        let mut longer = piece.clone();
        longer.push(c);
        let mut line = lead.to_owned();
        line.append(longer.as_str());
        let width = display_width(line.as_str());
        let ghost done = views(list@);
        proof {
            assert(chars@.take(i + 1).drop_last() =~= chars@.take(i as int));
            assert(chars@.take(i + 1).last() == c);
            if all_plain(chars@) && all_plain(lead@) && lead@.len() < max_width {
                assert(plain(chars@[i as int]));
                lemma_plain_concat(lead@, longer@);
            }
        }
        if !piece_empty && width > max_width {
            let ghost full = piece@;
            list.push(piece);
            piece = String::new();
            piece.push(c);
            proof {
                assert(views(list@) =~= done.push(full));
                assert(piece@ =~= seq![c]);
            }
        } else {
            piece = longer;
        }
        piece_empty = false;
        i += 1;
    }
    proof {
        assert(chars@.take(i as int) =~= chars@);
    }
    if !piece_empty {
        let ghost done = views(list@);
        let ghost last = piece@;
        list.push(piece);
        proof {
            assert(views(list@) =~= done.push(last));
        }
    }
    list
}

/// Plain texts stay plain put together.
proof fn lemma_plain_concat(a: Seq<char>, b: Seq<char>)
    requires
        all_plain(a),
        all_plain(b),
    ensures
        all_plain(a + b),
{
    assert forall|i: int| 0 <= i < (a + b).len() implies plain(#[trigger] (a + b)[i]) by {
        if i < a.len() {
            assert((a + b)[i] == a[i]);
        } else {
            assert((a + b)[i] == b[i - a.len()]);
        }
    }
}

/// Split a single word that is wider than the line into pieces that fit: no piece is
/// wider than `max_width`, but for a single character that is.
pub fn hard_break(word: &str, max_width: usize) -> (list: Vec<String>)
    ensures
        views(list@) == pieces(word@, Seq::empty(), max_width as nat),
        max_width > 0 ==> forall|i: int|
            0 <= i < list@.len() ==> text_width((#[trigger] list@[i])@) <= max_width
                || list@[i]@.len() == 1,
        all_plain(word@) && max_width > 0 ==> plain_within(views(list@), max_width as nat),
{
    let lead = String::new();
    proof {
        assert(lead@ =~= Seq::<char>::empty());
    }
    let list = break_word(word, lead.as_str(), max_width);
    proof {
        if max_width > 0 {
            lemma_pieces_fit(word@, lead@, max_width as nat);
            assert forall|i: int| 0 <= i < list@.len() implies text_width((#[trigger] list@[i])@)
                <= max_width || list@[i]@.len() == 1 by {
                let piece = views(list@)[i];
                assert(piece == list@[i]@);
                assert(lead@ + piece =~= piece);
            }
        }
    }
    list
}

/// The pieces of every word, in order.
pub open spec fn all_pieces(list: Seq<Seq<char>>, lead: Seq<char>, max_width: nat) -> Seq<Seq<char>>
    decreases list.len(),
{
    if list.len() == 0 {
        Seq::empty()
    } else {
        all_pieces(list.drop_last(), lead, max_width) + pieces(list.last(), lead, max_width)
    }
}

/// The pieces of every word, in order.
fn pieces_of_all(list: &Vec<String>, lead: &str, max_width: usize) -> (out: Vec<String>)
    ensures
        views(out@) == all_pieces(views(list@), lead@, max_width as nat),
        every_plain(views(list@)) && all_plain(lead@) && lead@.len() < max_width ==> plain_within(
            views(out@),
            (max_width - lead@.len()) as nat,
        ),
{
    let mut out: Vec<String> = Vec::new();
    let mut i: usize = 0;
    proof {
        assert(views(list@).take(0) =~= Seq::<Seq<char>>::empty());
        assert(views(out@) =~= Seq::<Seq<char>>::empty());
    }
    while i < list.len()
        invariant
            i <= list@.len(),
            views(out@) == all_pieces(views(list@).take(i as int), lead@, max_width as nat),
            every_plain(views(list@)) && all_plain(lead@) && lead@.len() < max_width
                ==> plain_within(views(out@), (max_width - lead@.len()) as nat),
        decreases list@.len() - i,
    {
        let mut more = break_word(list[i].as_str(), lead, max_width);
        let ghost done = views(out@);
        let ghost added = views(more@);
        let ghost before = out@;
        let ghost extra = more@;
        proof {
            assert(views(list@)[i as int] == list@[i as int]@);
        }
        out.append(&mut more);
        proof {
            assert(views(before + extra) =~= done + added);
            assert(views(list@).take(i + 1).drop_last() =~= views(list@).take(i as int));
            assert(views(list@).take(i + 1).last() == list@[i as int]@);
        }
        i += 1;
    }
    proof {
        assert(views(list@).take(i as int) =~= views(list@));
    }
    out
}

/// The finished rows and the row being filled, after the given pieces were set one
/// after the other with a space between each two, each row in a line after `lead`.
pub open spec fn fill(list: Seq<Seq<char>>, lead: Seq<char>, max_width: nat) -> (
    Seq<Seq<char>>,
    Seq<char>,
)
    decreases list.len(),
{
    if list.len() == 0 {
        (Seq::empty(), Seq::empty())
    } else {
        let (rows, row) = fill(list.drop_last(), lead, max_width);
        let piece = list.last();
        if row.len() == 0 {
            (rows, piece)
        } else if text_width(lead + (row.push(' ') + piece)) > max_width {
            (rows.push(row), piece)
        } else {
            (rows, row.push(' ') + piece)
        }
    }
}

/// The rows that pieces fill: never none.
pub open spec fn rows(list: Seq<Seq<char>>, lead: Seq<char>, max_width: nat) -> Seq<Seq<char>> {
    fill(list, lead, max_width).0.push(fill(list, lead, max_width).1)
}

/// How many spaces a text begins with.
pub open spec fn leading_spaces(s: Seq<char>) -> nat
    decreases s.len(),
{
    if s.len() == 0 || s[0] != ' ' {
        0
    } else {
        1 + leading_spaces(s.skip(1))
    }
}

/// The indent every row of a wrapped text gets: its leading spaces, none where
/// they would leave less than half the line for words.
pub open spec fn indent(s: Seq<char>, max_width: nat) -> Seq<char> {
    let lead = s.take(leading_spaces(s) as int);
    if text_width(lead) * 2 < max_width {
        lead
    } else {
        Seq::empty()
    }
}

/// A text as rows of at most `max_width` cells, broken at words, each row with the
/// indent of the first.
pub open spec fn wrapped(s: Seq<char>, max_width: nat) -> Seq<Seq<char>> {
    if max_width == 0 {
        seq![Seq::empty()]
    } else if text_width(s) <= max_width {
        seq![s]
    } else {
        let lead = indent(s, max_width);
        rows(all_pieces(words(s), lead, max_width), lead, max_width).map_values(
            |row: Seq<char>| lead + row,
        )
    }
}

/// Whether a line of a wrapped text is no wider than asked for, or holds nothing but the
/// indent and a single character that makes it so.
pub open spec fn line_fits(line: Seq<char>, lead: Seq<char>, max_width: nat) -> bool {
    text_width(line) <= max_width || exists|c: char| line == #[trigger] lead.push(c)
}

/// The leading spaces of `text`.
fn lead_of(text: &str) -> (lead: String)
    ensures
        lead@ == text@.take(leading_spaces(text@) as int),
{
    let chars = chars_of(text);
    let mut lead = String::new();
    let mut i: usize = 0;
    proof {
        assert(chars@.skip(0) =~= chars@);
        assert(chars@.take(0) =~= Seq::<char>::empty());
    }
    while i < chars.len() && chars[i] == ' '
        invariant
            i <= chars@.len(),
            lead@ == chars@.take(i as int),
            leading_spaces(chars@) == i + leading_spaces(chars@.skip(i as int)),
        decreases chars@.len() - i,
    {
        lead.push(' ');
        proof {
            assert(chars@.skip(i as int).skip(1) =~= chars@.skip(i + 1));
            assert(chars@.take(i + 1) =~= chars@.take(i as int).push(' '));
        }
        i += 1;
    }
    lead
}

/// The rows that pieces fill.
fn fill_rows(list: &Vec<String>, lead: &str, max_width: usize) -> (out: Vec<String>)
    ensures
        views(out@) == rows(views(list@), lead@, max_width as nat),
        all_plain(lead@) && lead@.len() < max_width && plain_within(
            views(list@),
            (max_width - lead@.len()) as nat,
        ) ==> plain_within(views(out@), (max_width - lead@.len()) as nat),
{
    let mut out: Vec<String> = Vec::new();
    let mut row: String = String::new();
    let mut i: usize = 0;
    proof {
        assert(views(list@).take(0) =~= Seq::<Seq<char>>::empty());
        assert(views(out@) =~= Seq::<Seq<char>>::empty());
        assert(row@ =~= Seq::<char>::empty());
    }
    while i < list.len()
        invariant
            i <= list@.len(),
            (views(out@), row@) == fill(views(list@).take(i as int), lead@, max_width as nat),
            all_plain(lead@) && lead@.len() < max_width && plain_within(
                views(list@),
                (max_width - lead@.len()) as nat,
            ) ==> plain_within(views(out@), (max_width - lead@.len()) as nat) && all_plain(row@)
                && lead@.len() + row@.len() <= max_width,
        decreases list@.len() - i,
    {
        let piece: &str = list[i].as_str();
        let mut longer = row.clone();
        longer.push(' ');
        longer.append(piece);
        let mut line = lead.to_owned();
        line.append(longer.as_str());
        let width = display_width(line.as_str());
        let ghost done = views(out@);
        let ghost before = row@;
        proof {
            assert(views(list@)[i as int] == piece@);
            assert(views(list@).take(i + 1).drop_last() =~= views(list@).take(i as int));
            assert(views(list@).take(i + 1).last() == piece@);
            assert(line@ =~= lead@ + (before.push(' ') + piece@));
            if all_plain(lead@) && lead@.len() < max_width && plain_within(
                views(list@),
                (max_width - lead@.len()) as nat,
            ) {
                assert(' ' <= ' ' <= '~');
                assert(all_plain(before.push(' ')));
                lemma_plain_concat(before.push(' '), piece@);
                lemma_plain_concat(lead@, longer@);
            }
        }
        if row.as_str().is_empty() {
            row = piece.to_owned();
        } else if width > max_width {
            out.push(row);
            row = piece.to_owned();
            proof {
                assert(views(out@) =~= done.push(before));
            }
        } else {
            row = longer;
        }
        i += 1;
    }
    proof {
        assert(views(list@).take(i as int) =~= views(list@));
    }
    let ghost done = views(out@);
    let ghost last = row@;
    out.push(row);
    proof {
        assert(views(out@) =~= done.push(last));
    }
    out
}

/// Break `text` into lines no wider than `max_width` terminal cells, preferring
/// word boundaries. A word longer than the whole width is broken mid-word.
/// Continuation lines repeat the first line's leading spaces. Always returns at
/// least one line. Only a character that is itself wider than the line makes a line too
/// wide, and then it stands there alone.
pub fn wrap(text: &str, max_width: usize) -> (out: Vec<String>)
    ensures
        views(out@) == wrapped(text@, max_width as nat),
        out@.len() >= 1,
        forall|i: int|
            0 <= i < out@.len() ==> line_fits(
                (#[trigger] out@[i])@,
                indent(text@, max_width as nat),
                max_width as nat,
            ),
        all_plain(text@) ==> forall|i: int|
            0 <= i < out@.len() ==> (#[trigger] out@[i])@.len() <= max_width,
{
    let mut out: Vec<String> = Vec::new();
    if max_width == 0 {
        out.push(blank());
        proof {
            assert(views(out@) =~= seq![Seq::<char>::empty()]);
        }
        return out;
    }
    if display_width(text) <= max_width {
        out.push(text.to_owned());
        proof {
            assert(views(out@) =~= seq![text@]);
        }
        return out;
    }
    let mut lead = lead_of(text);
    let lead_width = display_width(lead.as_str());
    if lead_width >= max_width || lead_width >= max_width - lead_width {
        lead = blank();
    }
    proof {
        lemma_indent_is_blank(text@);
        assert(plain(' ')) by {
            assert(' ' <= ' ' <= '~');
        }
        assert(lead@ =~= indent(text@, max_width as nat));
        assert(all_plain(lead@));
        assert(text_width(lead@) < max_width);
        assert(lead@.len() < max_width);
    }
    let list = words_of(text);
    let parts = pieces_of_all(&list, lead.as_str(), max_width);
    let lines = fill_rows(&parts, lead.as_str(), max_width);
    let mut i: usize = 0;
    let ghost whole = wrapped(text@, max_width as nat);
    proof {
        assert(views(out@) =~= whole.take(0));
        assert(whole =~= views(lines@).map_values(|row: Seq<char>| lead@ + row));
        lemma_all_pieces_fit(views(list@), lead@, max_width as nat);
        lemma_rows_fit(views(parts@), lead@, max_width as nat);
    }
    while i < lines.len()
        invariant
            i <= lines@.len(),
            whole == views(lines@).map_values(|row: Seq<char>| lead@ + row),
            views(out@) == whole.take(i as int),
            lead@ == indent(text@, max_width as nat),
            lead@.len() < max_width,
            text_width(lead@) < max_width,
            all_plain(text@) ==> plain_within(views(lines@), (max_width - lead@.len()) as nat),
            forall|k: int|
                0 <= k < lines@.len() ==> views(lines@)[k].len() == 0 || piece_fits(
                    #[trigger] views(lines@)[k],
                    lead@,
                    max_width as nat,
                ),
            all_plain(text@) ==> forall|k: int|
                0 <= k < out@.len() ==> (#[trigger] out@[k])@.len() <= max_width,
            forall|k: int|
                0 <= k < out@.len() ==> line_fits(
                    (#[trigger] out@[k])@,
                    lead@,
                    max_width as nat,
                ),
        decreases lines@.len() - i,
    {
        let mut line = lead.clone();
        let ghost row = lines@[i as int]@;
        proof {
            assert(views(lines@)[i as int] == row);
        }
        line.append(lines[i].as_str());
        let ghost done = views(out@);
        let ghost added = line@;
        proof {
            assert(line_fits(added, lead@, max_width as nat)) by {
                if row.len() == 0 {
                    assert(added =~= lead@);
                } else if row.len() == 1 {
                    assert(added =~= lead@.push(row[0]));
                }
            }
        }
        out.push(line);
        proof {
            assert(views(out@) =~= done.push(added));
            assert(whole.take(i + 1) =~= whole.take(i as int).push(whole[i as int]));
        }
        i += 1;
    }
    proof {
        assert(whole.take(i as int) =~= whole);
    }
    out
}

/// Every piece of every word fits, but for a character that is wider than the line.
proof fn lemma_all_pieces_fit(list: Seq<Seq<char>>, lead: Seq<char>, max_width: nat)
    requires
        max_width > 0,
    ensures
        forall|i: int|
            0 <= i < all_pieces(list, lead, max_width).len() ==> piece_fits(
                #[trigger] all_pieces(list, lead, max_width)[i],
                lead,
                max_width,
            ),
    decreases list.len(),
{
    if list.len() > 0 {
        lemma_all_pieces_fit(list.drop_last(), lead, max_width);
        lemma_pieces_fit(list.last(), lead, max_width);
        let before = all_pieces(list.drop_last(), lead, max_width);
        let last = pieces(list.last(), lead, max_width);
        let all = all_pieces(list, lead, max_width);
        assert forall|i: int| 0 <= i < all.len() implies piece_fits(
            #[trigger] all[i],
            lead,
            max_width,
        ) by {
            if i < before.len() {
                assert(all[i] == before[i]);
            } else {
                assert(all[i] == last[i - before.len()]);
            }
        }
    }
}

/// Rows of pieces that fit do.
proof fn lemma_rows_fit(list: Seq<Seq<char>>, lead: Seq<char>, max_width: nat)
    requires
        forall|i: int| 0 <= i < list.len() ==> piece_fits(#[trigger] list[i], lead, max_width),
    ensures
        forall|i: int|
            0 <= i < rows(list, lead, max_width).len() ==> rows(list, lead, max_width)[i].len() == 0
                || piece_fits(#[trigger] rows(list, lead, max_width)[i], lead, max_width),
    decreases list.len(),
{
    if list.len() > 0 {
        let before = list.drop_last();
        assert(forall|i: int| 0 <= i < before.len() ==> #[trigger] before[i] == list[i]);
        lemma_rows_fit(before, lead, max_width);
        let (done, row) = fill(before, lead, max_width);
        let all = rows(before, lead, max_width);
        assert(all.last() == row && all.drop_last() =~= done);
        assert(forall|i: int| 0 <= i < done.len() ==> #[trigger] done[i] == all[i]);
        assert(all[done.len() as int] == row);
        assert(list[list.len() - 1] == list.last());
    }
}

// ---------------------------------------------------------------------------
// Laws
// ---------------------------------------------------------------------------

/// The characters of a text that are not white space, in order.
pub open spec fn letters(s: Seq<char>) -> Seq<char>
    decreases s.len(),
{
    if s.len() == 0 {
        Seq::empty()
    } else if is_space(s.last()) {
        letters(s.drop_last())
    } else {
        letters(s.drop_last()).push(s.last())
    }
}

/// The characters of several texts that are not white space, in order.
pub open spec fn all_letters(list: Seq<Seq<char>>) -> Seq<char>
    decreases list.len(),
{
    if list.len() == 0 {
        Seq::empty()
    } else {
        all_letters(list.drop_last()) + letters(list.last())
    }
}

proof fn lemma_letters_concat(a: Seq<char>, b: Seq<char>)
    ensures
        letters(a + b) == letters(a) + letters(b),
    decreases b.len(),
{
    if b.len() == 0 {
        assert(a + b =~= a);
        assert(letters(a) + letters(b) =~= letters(a));
    } else {
        assert((a + b).drop_last() =~= a + b.drop_last());
        lemma_letters_concat(a, b.drop_last());
        assert(letters(a + b) =~= letters(a) + letters(b));
    }
}

proof fn lemma_letters_push(a: Seq<char>, c: char)
    ensures
        letters(a.push(c)) == if is_space(c) {
            letters(a)
        } else {
            letters(a).push(c)
        },
{
    assert(a.push(c).drop_last() =~= a);
}

proof fn lemma_all_letters_push(list: Seq<Seq<char>>, s: Seq<char>)
    ensures
        all_letters(list.push(s)) == all_letters(list) + letters(s),
{
    assert(list.push(s).drop_last() =~= list);
}

proof fn lemma_all_letters_concat(a: Seq<Seq<char>>, b: Seq<Seq<char>>)
    ensures
        all_letters(a + b) == all_letters(a) + all_letters(b),
    decreases b.len(),
{
    if b.len() == 0 {
        assert(a + b =~= a);
        assert(all_letters(a) + all_letters(b) =~= all_letters(a));
    } else {
        assert((a + b).drop_last() =~= a + b.drop_last());
        lemma_all_letters_concat(a, b.drop_last());
        assert(all_letters(a + b) =~= all_letters(a) + all_letters(b));
    }
}

proof fn lemma_words_letters(s: Seq<char>)
    ensures
        all_letters(scan_words(s).0) + letters(scan_words(s).1) == letters(s),
        all_letters(words(s)) == letters(s),
    decreases s.len(),
{
    if s.len() > 0 {
        let before = s.drop_last();
        let c = s.last();
        lemma_words_letters(before);
        let (done, open) = scan_words(before);
        if !is_space(c) {
            lemma_letters_push(open, c);
            assert(all_letters(done) + letters(open).push(c) =~= (all_letters(done) + letters(
                open,
            )).push(c));
        } else if open.len() > 0 {
            lemma_all_letters_push(done, open);
            assert(all_letters(done.push(open)) + letters(Seq::<char>::empty()) =~= all_letters(
                done.push(open),
            ));
        }
    } else {
        assert(all_letters(scan_words(s).0) + letters(scan_words(s).1) =~= letters(s));
    }
    let (done, open) = scan_words(s);
    if open.len() > 0 {
        lemma_all_letters_push(done, open);
    } else {
        assert(all_letters(done) + letters(open) =~= all_letters(done));
    }
}

proof fn lemma_pieces_letters(word: Seq<char>, lead: Seq<char>, max_width: nat)
    ensures
        all_letters(scan_pieces(word, lead, max_width).0) + letters(
            scan_pieces(word, lead, max_width).1,
        ) == letters(word),
        all_letters(pieces(word, lead, max_width)) == letters(word),
    decreases word.len(),
{
    let (done, piece) = scan_pieces(word, lead, max_width);
    if word.len() > 0 {
        let c = word.last();
        lemma_pieces_letters(word.drop_last(), lead, max_width);
        let (done0, piece0) = scan_pieces(word.drop_last(), lead, max_width);
        if piece0.len() > 0 && text_width(lead + piece0.push(c)) > max_width {
            lemma_all_letters_push(done0, piece0);
            lemma_letters_push(Seq::empty(), c);
            assert(Seq::<char>::empty().push(c) =~= seq![c]);
            assert(all_letters(done) + letters(piece) =~= letters(word));
        } else {
            lemma_letters_push(piece0, c);
            assert(all_letters(done) + letters(piece) =~= letters(word));
        }
    } else {
        assert(all_letters(done) + letters(piece) =~= letters(word));
    }
    lemma_all_letters_push(Seq::empty(), word);
    assert(Seq::<Seq<char>>::empty().push(word) =~= seq![word]);
    assert(all_letters(seq![word]) =~= letters(word));
    if piece.len() > 0 {
        lemma_all_letters_push(done, piece);
    } else {
        assert(all_letters(done) + letters(piece) =~= all_letters(done));
    }
}

proof fn lemma_all_pieces_letters(list: Seq<Seq<char>>, lead: Seq<char>, max_width: nat)
    ensures
        all_letters(all_pieces(list, lead, max_width)) == all_letters(list),
    decreases list.len(),
{
    if list.len() > 0 {
        lemma_all_pieces_letters(list.drop_last(), lead, max_width);
        lemma_pieces_letters(list.last(), lead, max_width);
        lemma_all_letters_concat(
            all_pieces(list.drop_last(), lead, max_width),
            pieces(list.last(), lead, max_width),
        );
    }
}

proof fn lemma_fill_letters(list: Seq<Seq<char>>, lead: Seq<char>, max_width: nat)
    ensures
        all_letters(fill(list, lead, max_width).0) + letters(fill(list, lead, max_width).1)
            == all_letters(list),
    decreases list.len(),
{
    let (done, row) = fill(list, lead, max_width);
    if list.len() > 0 {
        let piece = list.last();
        lemma_fill_letters(list.drop_last(), lead, max_width);
        let (done0, row0) = fill(list.drop_last(), lead, max_width);
        if row0.len() == 0 {
            assert(row0 =~= Seq::<char>::empty());
        } else if text_width(lead + (row0.push(' ') + piece)) > max_width {
            lemma_all_letters_push(done0, row0);
        } else {
            lemma_letters_push(row0, ' ');
            lemma_letters_concat(row0.push(' '), piece);
        }
    }
    assert(all_letters(done) + letters(row) =~= all_letters(list));
}

proof fn lemma_indent_is_blank(s: Seq<char>)
    ensures
        leading_spaces(s) <= s.len(),
        forall|i: int| 0 <= i < leading_spaces(s) ==> s[i] == ' ',
        letters(s.take(leading_spaces(s) as int)) == Seq::<char>::empty(),
    decreases s.len(),
{
    if s.len() == 0 || s[0] != ' ' {
        assert(s.take(0) =~= Seq::<char>::empty());
    } else {
        let rest = s.skip(1);
        lemma_indent_is_blank(rest);
        let k = leading_spaces(rest) as int;
        assert(s.take(k + 1) =~= seq![' '] + rest.take(k));
        lemma_letters_concat(seq![' '], rest.take(k));
        lemma_letters_push(Seq::empty(), ' ');
        assert(Seq::<char>::empty().push(' ') =~= seq![' ']);
        assert forall|i: int| 0 <= i < leading_spaces(s) implies s[i] == ' ' by {
            if i > 0 {
                assert(rest[i - 1] == s[i]);
            }
        }
        assert(letters(s.take(k + 1)) =~= Seq::<char>::empty());
    }
}

proof fn lemma_indented_letters(list: Seq<Seq<char>>, lead: Seq<char>)
    requires
        letters(lead) == Seq::<char>::empty(),
    ensures
        all_letters(list.map_values(|row: Seq<char>| lead + row)) == all_letters(list),
    decreases list.len(),
{
    let out = list.map_values(|row: Seq<char>| lead + row);
    if list.len() > 0 {
        lemma_indented_letters(list.drop_last(), lead);
        assert(out.drop_last() =~= list.drop_last().map_values(|row: Seq<char>| lead + row));
        lemma_letters_concat(lead, list.last());
        assert(letters(lead) + letters(list.last()) =~= letters(list.last()));
    }
}

/// Wrapping loses no character and invents none: read without white space, the
/// rows are the text.
pub proof fn law_wrap_keeps_every_letter(s: Seq<char>, max_width: nat)
    requires
        max_width > 0,
    ensures
        all_letters(wrapped(s, max_width)) == letters(s),
{
    if text_width(s) <= max_width {
        lemma_all_letters_push(Seq::empty(), s);
        assert(Seq::<Seq<char>>::empty().push(s) =~= seq![s]);
        assert(all_letters(seq![s]) =~= letters(s));
    } else {
        let lead = indent(s, max_width);
        let parts = all_pieces(words(s), lead, max_width);
        lemma_words_letters(s);
        lemma_all_pieces_letters(words(s), lead, max_width);
        lemma_fill_letters(parts, lead, max_width);
        lemma_all_letters_push(fill(parts, lead, max_width).0, fill(parts, lead, max_width).1);
        lemma_indent_is_blank(s);
        lemma_indented_letters(rows(parts, lead, max_width), lead);
    }
}

proof fn lemma_half_even_is_near(a: nat, s: nat)
    requires
        s > 0,
    ensures
        2 * (half_even(a, s) * s) <= 2 * a + s,
        2 * a <= 2 * (half_even(a, s) * s) + s,
{
    let q = a / s;
    let r = a % s;
    assert(a == q * s + r && 0 <= r < s) by (nonlinear_arith)
        requires
            q == a / s,
            r == a % s,
            s > 0,
    ;
    assert((q + 1) * s == q * s + s) by (nonlinear_arith);
}

proof fn lemma_half_up_reaches(a: nat, s: nat, m: nat)
    requires
        s > 0,
        half_up(a, s) >= m,
    ensures
        2 * a + s >= 2 * s * m,
{
    let x = 2 * a + s;
    let d = 2 * s;
    assert(x >= d * m) by (nonlinear_arith)
        requires
            x / d >= m,
            d > 0,
    ;
}

proof fn lemma_unit_is_needed(n: nat, unit: nat)
    requires
        unit <= 4,
    ensures
        unit_for(n, unit) > unit ==> overflows_unit(n, (unit_for(n, unit) - 1) as nat),
    decreases 4 - unit,
{
    if unit < 4 && overflows_unit(n, unit) {
        lemma_unit_is_needed(n, unit + 1);
    }
}

/// A byte count in words, as a reader takes it: a whole number of bytes or KiB, or a number
/// with one decimal of MiB, GiB or TiB, that is within half its last digit of the count; and
/// the unit is the smallest in which that number stays below 1024.
pub open spec fn reads_as_bytes(text: Seq<char>, n: nat, q: nat, unit: nat) -> bool {
    if unit == 0 {
        text == decimal(q) + " B"@ && q == n && q < 1024
    } else if unit == 1 {
        &&& text == decimal(q) + " KiB"@
        &&& 2 * (q * 0x400) <= 2 * n + 0x400
        &&& 2 * n <= 2 * (q * 0x400) + 0x400
        &&& q < 1024
        &&& n >= 1024
    } else if unit == 2 {
        &&& text == decimal(q / 10) + "."@ + decimal(q % 10) + " MiB"@
        &&& 2 * (q * 0x10_0000) <= 2 * (10 * n) + 0x10_0000
        &&& 2 * (10 * n) <= 2 * (q * 0x10_0000) + 0x10_0000
        &&& q < 10240
        &&& 2 * n + 0x400 >= 2048 * 0x400
    } else if unit == 3 {
        &&& text == decimal(q / 10) + "."@ + decimal(q % 10) + " GiB"@
        &&& 2 * (q * 0x4000_0000) <= 2 * (10 * n) + 0x4000_0000
        &&& 2 * (10 * n) <= 2 * (q * 0x4000_0000) + 0x4000_0000
        &&& q < 10240
        &&& 20 * n + 0x10_0000 >= 20480 * 0x10_0000
    } else {
        &&& text == decimal(q / 10) + "."@ + decimal(q % 10) + " TiB"@
        &&& 2 * (q * 0x100_0000_0000) <= 2 * (10 * n) + 0x100_0000_0000
        &&& 2 * (10 * n) <= 2 * (q * 0x100_0000_0000) + 0x100_0000_0000
        &&& 20 * n + 0x4000_0000 >= 20480 * 0x4000_0000
    }
}

/// What is shown of a byte count is the count, to the last digit shown. Beyond 8 PiB, where
/// a double-precision number no longer holds every count, it is the nearest that it holds.
pub proof fn law_bytes_are_shown_to_the_nearest_digit(n: nat)
    ensures
        exists|q: nat, unit: nat|
            unit <= 4 && #[trigger] reads_as_bytes(bytes_text(n), double_of(n), q, unit),
        n < 0x20_0000_0000_0000 ==> double_of(n) == n,
{
    let value = double_of(n);
    let unit = unit_for(value, 0);
    let scale = unit_bytes(unit);
    lemma_unit_stops(value, 0);
    lemma_unit_is_needed(value, 0);
    law_no_number_reaches_the_next_unit(n);
    lemma_half_even_is_near(value, scale);
    lemma_half_even_is_near(10 * value, scale);
    reveal_strlit(" ");
    reveal_strlit("B");
    reveal_strlit("KiB");
    reveal_strlit("MiB");
    reveal_strlit("GiB");
    reveal_strlit("TiB");
    reveal_strlit(" B");
    reveal_strlit(" KiB");
    reveal_strlit(" MiB");
    reveal_strlit(" GiB");
    reveal_strlit(" TiB");
    assert(" "@ + "B"@ =~= " B"@);
    assert(" "@ + "KiB"@ =~= " KiB"@);
    assert(" "@ + "MiB"@ =~= " MiB"@);
    assert(" "@ + "GiB"@ =~= " GiB"@);
    assert(" "@ + "TiB"@ =~= " TiB"@);
    let q = if unit < 2 {
        half_even(value, scale)
    } else {
        half_even(10 * value, scale)
    };
    let number = if unit < 2 {
        decimal(q)
    } else {
        decimal(q / 10) + "."@ + decimal(q % 10)
    };
    assert(bytes_text(n) =~= number + (" "@ + unit_text(unit)));
    if unit == 0 {
        assert(value / 1 == value && value % 1 == 0);
        assert(half_even(value, 1) == value);
        assert(reads_as_bytes(bytes_text(n), value, q, unit));
    } else if unit == 1 {
        lemma_half_up_reaches(value, 1, 1024);
        assert(value >= 1024);
        assert(reads_as_bytes(bytes_text(n), value, q, unit));
    } else if unit == 2 {
        lemma_half_up_reaches(value, 0x400, 1024);
        assert(2 * value + 0x400 >= 2048 * 0x400);
        assert(reads_as_bytes(bytes_text(n), value, q, unit));
    } else if unit == 3 {
        lemma_half_up_reaches(10 * value, 0x10_0000, 10240);
        assert(20 * value + 0x10_0000 >= 20480 * 0x10_0000);
        assert(reads_as_bytes(bytes_text(n), value, q, unit));
    } else {
        lemma_half_up_reaches(10 * value, 0x4000_0000, 10240);
        assert(20 * value + 0x4000_0000 >= 20480 * 0x4000_0000);
        assert(reads_as_bytes(bytes_text(n), value, q, unit));
    }
    if n < 0x20_0000_0000_0000 {
        assert(last_place(n) == 1);
        assert(n / 1 == n && n % 1 == 0);
        assert(half_even(n, 1) == n);
        assert(n * 1 == n);
        assert(double_of(n) == half_even(n, 1) * 1);
    }
}

/// What a duration is shown as adds up to it, short of the smaller of the two units: days
/// and hours, hours and minutes, minutes and seconds, or seconds alone.
pub proof fn law_a_duration_is_split_into_its_units(secs: u64, a: nat, b: nat)
    ensures
        secs < 60 ==> duration_text(Some(secs)) == decimal(secs as nat) + "s"@,
        60 <= secs < 3600 && b < 60 && secs == 60 * a + b ==> duration_text(Some(secs)) == decimal(
            a,
        ) + "m"@ + " "@ + decimal(b) + "s"@,
        3600 <= secs < 86400 && b < 60 && 3600 * a + 60 * b <= secs < 3600 * a + 60 * b + 60
            ==> duration_text(Some(secs)) == decimal(a) + "h"@ + " "@ + decimal(b) + "m"@,
        86400 <= secs && b < 24 && 86400 * a + 3600 * b <= secs < 86400 * a + 3600 * b + 3600
            ==> duration_text(Some(secs)) == decimal(a) + "d"@ + " "@ + decimal(b) + "h"@,
{
    let n = secs as nat;
    if 60 <= n < 3600 && b < 60 && n == 60 * a + b {
        assert(n / 60 == a && n % 60 == b);
    } else if 3600 <= n < 86400 && b < 60 && 3600 * a + 60 * b <= n < 3600 * a + 60 * b + 60 {
        assert(n / 3600 == a && (n % 3600) / 60 == b);
    } else if 86400 <= n && b < 24 && 86400 * a + 3600 * b <= n < 86400 * a + 3600 * b + 3600 {
        assert(n / 86400 == a && (n % 86400) / 3600 == b);
    }
}

/// Truncating keeps as much as fits: each shorter beginning fits with the marker, and one
/// character more does not, unless nothing is left.
pub proof fn law_truncation_keeps_what_fits(s: Seq<char>, max_width: nat)
    requires
        text_width(s) > max_width,
        max_width >= text_width(ELLIPSIS@),
    ensures
        exists|k: int|
            {
                &&& 0 <= k <= s.len()
                &&& truncated(s, max_width) == #[trigger] s.take(k) + ELLIPSIS@
                &&& forall|i: int|
                    0 < i <= k ==> text_width(#[trigger] s.take(i) + ELLIPSIS@) <= max_width
                &&& k < s.len() ==> text_width(s.take(k + 1) + ELLIPSIS@) > max_width
            },
{
    let k = kept_from(s, 0, max_width);
    lemma_kept_from(s, 0, max_width);
    assert(truncated(s, max_width) == s.take(k) + ELLIPSIS@);
}

proof fn lemma_kept_from(s: Seq<char>, kept: int, max_width: nat)
    requires
        0 <= kept <= s.len(),
    ensures
        kept <= kept_from(s, kept, max_width) <= s.len(),
        forall|i: int|
            kept < i <= kept_from(s, kept, max_width) ==> text_width(
                #[trigger] s.take(i) + ELLIPSIS@,
            ) <= max_width,
        kept_from(s, kept, max_width) < s.len() ==> text_width(
            s.take(kept_from(s, kept, max_width) + 1) + ELLIPSIS@,
        ) > max_width,
    decreases s.len() - kept,
{
    if kept < s.len() && text_width(s.take(kept + 1) + ELLIPSIS@) <= max_width {
        lemma_kept_from(s, kept + 1, max_width);
    }
}

/// A word that fits in a line is not broken.
pub proof fn law_a_word_that_fits_stays_whole(word: Seq<char>, lead: Seq<char>, max_width: nat)
    requires
        text_width(lead + word) <= max_width,
    ensures
        pieces(word, lead, max_width) == seq![word],
{
}

/// The rows read as the words they are made of: joined with a space between each two, rows
/// and words come to the same text.
pub proof fn law_rows_read_as_their_words(list: Seq<Seq<char>>, lead: Seq<char>, max_width: nat)
    requires
        forall|i: int| 0 <= i < list.len() ==> (#[trigger] list[i]).len() > 0,
    ensures
        joined(rows(list, lead, max_width), seq![' ']) == joined(list, seq![' ']),
        list.len() > 0 ==> fill(list, lead, max_width).1.len() > 0,
        list.len() == 0 ==> fill(list, lead, max_width).0.len() == 0,
    decreases list.len(),
{
    let sep = seq![' '];
    let (done, row) = fill(list, lead, max_width);
    let all = rows(list, lead, max_width);
    assert(all.drop_last() =~= done);
    if list.len() == 0 {
        assert(joined(all, sep) =~= joined(list, sep));
    } else {
        let before = list.drop_last();
        let piece = list.last();
        assert(list[list.len() - 1] == piece);
        assert(forall|i: int| 0 <= i < before.len() ==> #[trigger] before[i] == list[i]);
        law_rows_read_as_their_words(before, lead, max_width);
        let (done0, row0) = fill(before, lead, max_width);
        let all0 = rows(before, lead, max_width);
        assert(all0.drop_last() =~= done0);
        if row0.len() == 0 {
            assert(before.len() == 0);
            assert(joined(all, sep) =~= piece);
            assert(joined(list, sep) =~= piece);
        } else {
            assert(before.len() > 0);
            assert(joined(list, sep) == joined(before, sep) + sep + piece);
            if text_width(lead + (row0.push(' ') + piece)) > max_width {
                assert(all.drop_last() =~= all0);
                assert(joined(all, sep) == joined(all0, sep) + sep + piece);
            } else {
                let longer = row0.push(' ') + piece;
                if done0.len() == 0 {
                    assert(joined(all0, sep) =~= row0);
                    assert(joined(all, sep) =~= longer);
                    assert(longer =~= row0 + sep + piece);
                } else {
                    assert(joined(all0, sep) == joined(done0, sep) + sep + row0);
                    assert(joined(all, sep) == joined(done0, sep) + sep + longer);
                    assert(joined(all, sep) =~= joined(all0, sep) + sep + piece);
                }
            }
        }
    }
}

/// A row is broken only where it has to be: the first word of the next one would not have
/// fitted in it.
pub proof fn law_rows_are_as_full_as_can_be(
    list: Seq<Seq<char>>,
    lead: Seq<char>,
    max_width: nat,
    i: int,
)
    requires
        0 <= i < fill(list, lead, max_width).0.len(),
    ensures
        exists|k: int|
            0 <= k < list.len() && begins_over(
                #[trigger] list[k],
                rows(list, lead, max_width)[i],
                rows(list, lead, max_width)[i + 1],
                lead,
                max_width,
            ),
    decreases list.len(),
{
    let (done, row) = fill(list, lead, max_width);
    let all = rows(list, lead, max_width);
    if list.len() > 0 {
        let before = list.drop_last();
        let piece = list.last();
        let (done0, row0) = fill(before, lead, max_width);
        let all0 = rows(before, lead, max_width);
        if i < done0.len() {
            law_rows_are_as_full_as_can_be(before, lead, max_width, i);
            let k = choose|k: int|
                0 <= k < before.len() && begins_over(
                    #[trigger] before[k],
                    all0[i],
                    all0[i + 1],
                    lead,
                    max_width,
                );
            assert(list[k] == before[k]);
            assert(all[i] == all0[i]);
            assert(before[k].is_prefix_of(all[i + 1])) by {
                if i + 1 < done0.len() {
                    assert(all[i + 1] == all0[i + 1]);
                } else {
                    assert(all0[i + 1] == row0);
                    if row0.len() == 0 {
                        assert(before[k] =~= Seq::<char>::empty());
                        assert(before[k] =~= all[i + 1].take(0));
                    } else if text_width(lead + (row0.push(' ') + piece)) > max_width {
                        assert(all[i + 1] == row0);
                    } else {
                        assert(before[k] =~= all[i + 1].take(before[k].len() as int));
                    }
                }
            }
        } else {
            assert(done == done0.push(row0));
            assert(all[i] == row0 && all[i + 1] == piece);
            assert(list[list.len() - 1] == piece);
            assert(piece =~= piece.take(piece.len() as int));
            assert(begins_over(piece, all[i], all[i + 1], lead, max_width));
        }
    }
}

/// Whether a piece begins a row and would have made the row before it too wide.
pub open spec fn begins_over(
    piece: Seq<char>,
    row: Seq<char>,
    next: Seq<char>,
    lead: Seq<char>,
    max_width: nat,
) -> bool {
    piece.is_prefix_of(next) && text_width(lead + (row.push(' ') + piece)) > max_width
}

proof fn lemma_leading_spaces(s: Seq<char>, n: int)
    requires
        0 <= n <= s.len(),
        forall|i: int| 0 <= i < n ==> #[trigger] s[i] == ' ',
        n < s.len() ==> s[n] != ' ',
    ensures
        leading_spaces(s) == n,
    decreases n,
{
    if n > 0 {
        let rest = s.skip(1);
        assert(s[0] == ' ');
        assert forall|i: int| 0 <= i < n - 1 implies #[trigger] rest[i] == ' ' by {
            assert(rest[i] == s[i + 1]);
        }
        lemma_leading_spaces(rest, n - 1);
    }
}

/// Every row of a text that has to be wrapped begins with the spaces that the text begins
/// with, as long as those take less than half of the line.
pub proof fn law_rows_keep_the_indent(s: Seq<char>, n: int, max_width: nat, i: int)
    requires
        0 <= n <= s.len(),
        forall|k: int| 0 <= k < n ==> #[trigger] s[k] == ' ',
        n < s.len() ==> s[n] != ' ',
        text_width(s.take(n)) * 2 < max_width,
        0 <= i < wrapped(s, max_width).len(),
    ensures
        s.take(n).is_prefix_of(wrapped(s, max_width)[i]),
        text_width(s) <= max_width ==> wrapped(s, max_width) == seq![s],
{
    lemma_leading_spaces(s, n);
    let lead = s.take(n);
    if text_width(s) > max_width {
        let list = rows(all_pieces(words(s), lead, max_width), lead, max_width);
        assert(wrapped(s, max_width)[i] == lead + list[i]);
        assert(lead =~= (lead + list[i]).take(lead.len() as int));
    }
}

} // verus!
