//! How numbers and texts are shown.

use syno_clean::format::{
    bytes, display_width, duration, hard_break, speed, truncate_ellipsis, wrap, DASH, ELLIPSIS,
    INFINITY,
};
use syno_clean::testutil;

// ---- bytes ------------------------------------------------------------

#[test]
fn bytes_renders_whole_numbers_below_mib_and_one_decimal_above() {
    assert_eq!(bytes(0), "0 B");
    assert_eq!(bytes(1), "1 B");
    assert_eq!(bytes(1023), "1023 B");
    assert_eq!(bytes(1024), "1 KiB");
    assert_eq!(bytes(1536), "2 KiB");
    assert_eq!(bytes(1024 * 1024), "1.0 MiB");
    assert_eq!(bytes(1024 * 1024 * 1024), "1.0 GiB");
    assert_eq!(bytes(1024 * 1024 * 1024 * 1024), "1.0 TiB");
}

#[test]
fn bytes_rounds_to_the_displayed_precision() {
    // 1.5 KiB rounds to a whole 2 KiB; 6231819257 B is 5.8 GiB.
    assert_eq!(bytes(1024 + 512), "2 KiB");
    assert_eq!(bytes(1024 + 511), "1 KiB");
    assert_eq!(bytes(6_231_819_257), "5.8 GiB");
    assert_eq!(bytes(8_912_896), "8.5 MiB");
}

#[test]
fn a_value_that_would_round_up_to_1024_is_promoted_to_the_next_unit() {
    // The point of the promotion check: never print "1024 KiB".
    assert_eq!(bytes(1024 * 1024 - 1), "1.0 MiB");
    assert_eq!(bytes(1024 * 1024 - 1024), "1023 KiB");
    // 1023.97 MiB formats as 1024.0 at one decimal, so it becomes 1.0 GiB.
    assert_eq!(bytes(1024 * 1024 * 1024 - 1), "1.0 GiB");
    assert_eq!(bytes(1024 * 1024 * 1024 - 40 * 1024 * 1024), "984.0 MiB");
}

#[test]
fn bytes_saturates_at_tib_without_panicking() {
    // u64::MAX is 16 EiB; TiB is the last unit, so it simply grows.
    assert!(bytes(u64::MAX).ends_with(" TiB"));
    assert_eq!(bytes(2 * 1024 * 1024 * 1024 * 1024), "2.0 TiB");
}

// ---- speed ------------------------------------------------------------

#[test]
fn speed_marks_an_idle_transfer_with_a_dash_rather_than_zero() {
    assert_eq!(speed(0), DASH);
    assert_eq!(speed(1), "1 B/s");
    assert_eq!(speed(524_288), "512 KiB/s");
    assert_eq!(speed(8_912_896), "8.5 MiB/s");
}

// ---- duration ---------------------------------------------------------

#[test]
fn an_unknown_duration_is_infinity_not_zero() {
    assert_eq!(duration(None), INFINITY);
    // Zero seconds is a *known* duration and must not read as unknown.
    assert_eq!(duration(Some(0)), "0s");
}

#[test]
fn duration_renders_at_most_two_units() {
    assert_eq!(duration(Some(1)), "1s");
    assert_eq!(duration(Some(59)), "59s");
    assert_eq!(duration(Some(60)), "1m 0s");
    assert_eq!(duration(Some(65)), "1m 5s");
    assert_eq!(duration(Some(3_599)), "59m 59s");
    assert_eq!(duration(Some(3_600)), "1h 0m");
    assert_eq!(duration(Some(8_040)), "2h 14m");
    assert_eq!(duration(Some(86_399)), "23h 59m");
    assert_eq!(duration(Some(86_400)), "1d 0h");
    assert_eq!(duration(Some(90_000)), "1d 1h");
    assert_eq!(duration(Some(1_000_000)), "11d 13h");
}

// ---- display width ----------------------------------------------------

#[test]
fn display_width_counts_cells_not_bytes_or_chars() {
    assert_eq!(display_width("abc"), 3);
    // Three chars, nine bytes, six cells.
    assert_eq!(display_width("千と千"), 6);
    assert_eq!("千と千".chars().count(), 3);
    assert_eq!("千と千".len(), 9);
    // The ellipsis and the sentinels are all single-cell.
    assert_eq!(display_width(ELLIPSIS), 1);
    assert_eq!(display_width(DASH), 1);
    assert_eq!(display_width(INFINITY), 1);
}

// ---- truncation -------------------------------------------------------

/// The contract every truncation must satisfy.
fn assert_fits(text: &str, max_width: usize) -> String {
    let out = truncate_ellipsis(text, max_width);
    assert!(
        display_width(&out) <= max_width,
        "{out:?} is {} cells, over the {max_width} allowed",
        display_width(&out)
    );
    out
}

#[test]
fn text_that_already_fits_is_returned_unchanged() {
    assert_eq!(truncate_ellipsis("abc", 3), "abc");
    assert_eq!(truncate_ellipsis("abc", 10), "abc");
    assert_eq!(truncate_ellipsis("", 0), "");
    assert_eq!(truncate_ellipsis("千と千", 6), "千と千");
}

#[test]
fn ascii_truncation_leaves_room_for_the_ellipsis() {
    assert_eq!(assert_fits("abcdef", 5), "abcd…");
    assert_eq!(assert_fits("abcdef", 2), "a…");
    assert_eq!(assert_fits("abcdef", 1), "…");
}

#[test]
fn a_width_too_small_for_the_ellipsis_yields_nothing() {
    assert_eq!(truncate_ellipsis("abcdef", 0), "");
    assert_eq!(truncate_ellipsis("千と千", 0), "");
}

#[test]
fn cjk_truncation_counts_two_cells_per_character() {
    // Six cells of text into five: two chars (4 cells) plus the ellipsis.
    assert_eq!(assert_fits("千と千", 5), "千と…");
    // Four cells available: one char plus the ellipsis is 3, and the next
    // char would overflow, so the result is deliberately one cell short.
    assert_eq!(assert_fits("千と千", 4), "千…");
    assert_eq!(assert_fits("千と千", 3), "千…");
    assert_eq!(assert_fits("千と千", 2), "…");
}

#[test]
fn an_emoji_is_two_cells_wide_and_never_half_printed() {
    assert_eq!(assert_fits("🐰🐰🐰", 5), "🐰🐰…");
    assert_eq!(assert_fits("🐰🐰🐰", 4), "🐰…");
    // Three cells cannot hold a two-cell emoji plus the marker.
    assert_eq!(assert_fits("🐰🐰🐰", 3), "🐰…");
    assert_eq!(assert_fits("ab🐰cd", 4), "ab…");
}

#[test]
fn mixed_width_text_truncates_on_the_cell_boundary() {
    // "a千b千c" is 7 cells: 1 + 2 + 1 + 2 + 1.
    assert_eq!(display_width("a千b千c"), 7);
    assert_eq!(assert_fits("a千b千c", 4), "a千…");
    assert_eq!(assert_fits("a千b千c", 5), "a千b…");
    // At 6 the next character is double-width and will not fit in the one
    // remaining cell, so the result stops a cell short rather than
    // clipping it in half.
    assert_eq!(assert_fits("a千b千c", 6), "a千b…");
}

// ---- against the checked-in fixture -----------------------------------
//
// The fixture carries a CJK title and an emoji title precisely so the
// width handling is exercised against data of the shape a real NAS sends,
// not just against hand-picked strings.

fn fixture_titles() -> Vec<String> {
    testutil::fixture_tasks()
        .expect("the fixture must parse")
        .into_iter()
        .map(|t| t.title)
        .collect()
}

#[test]
fn every_fixture_title_truncates_within_its_column_at_every_width() {
    let titles = fixture_titles();
    assert!(!titles.is_empty());
    for title in &titles {
        for width in 0..=48 {
            let out = truncate_ellipsis(title, width);
            assert!(
                display_width(&out) <= width,
                "{title:?} at width {width} produced {out:?} \
                 ({} cells)",
                display_width(&out)
            );
        }
    }
}

#[test]
fn the_fixtures_cjk_title_is_wider_than_its_character_count() {
    let title = fixture_titles()
        .into_iter()
        .find(|t| t.starts_with("千と千尋"))
        .expect("the fixture must keep a CJK title");
    assert!(
        display_width(&title) > title.chars().count(),
        "a char-count truncation would have looked safe here"
    );
    // Truncating to 20 cells keeps the recognizable head of the title.
    let out = truncate_ellipsis(&title, 20);
    assert_eq!(display_width(&out), 20);
    assert!(out.starts_with("千と千尋の神隠し"), "{out}");
    assert!(out.ends_with(ELLIPSIS), "{out}");
}

#[test]
fn the_fixtures_emoji_title_truncates_without_splitting_the_emoji() {
    let title = fixture_titles()
        .into_iter()
        .find(|t| t.contains('🐰'))
        .expect("the fixture must keep an emoji title");
    // Cut exactly where the emoji would straddle the boundary.
    let head = "Big.Buck.Bunny.2008.1080p.";
    let upto_emoji = display_width(head);
    let out = truncate_ellipsis(&title, upto_emoji + 2);
    assert!(display_width(&out) <= upto_emoji + 2);
    assert!(
        !out.contains('🐰'),
        "{out} must not include a clipped emoji"
    );
    assert_eq!(
        truncate_ellipsis(&title, upto_emoji + 3),
        format!("{head}🐰…")
    );
}

// ---- wrap ---------------------------------------------------------------

#[test]
fn text_that_fits_is_returned_as_one_line_unchanged() {
    assert_eq!(wrap("short enough", 40), vec!["short enough".to_string()]);
    assert_eq!(wrap("", 40), vec![String::new()]);
    // A zero-width area still yields a countable row.
    assert_eq!(wrap("anything", 0), vec![String::new()]);
}

#[test]
fn wrapping_breaks_on_words_and_never_exceeds_the_width() {
    let text = "nothing at /downloads/X, and that path was guessed from the task's title";
    for width in [10, 20, 31, 79] {
        let lines = wrap(text, width);
        for line in &lines {
            assert!(
                display_width(line) <= width,
                "{width}: {line:?} is {} cells",
                display_width(line)
            );
        }
        // Nothing is lost and nothing is invented. Compared without any
        // whitespace, because a width narrow enough to break a word mid-way
        // legitimately turns one word into two.
        let squeeze =
            |text: &str| -> String { text.chars().filter(|c| !c.is_whitespace()).collect() };
        assert_eq!(squeeze(&lines.join("")), squeeze(text), "{width}");
    }
}

#[test]
fn a_word_wider_than_the_line_is_broken_rather_than_overflowing() {
    // A path with no spaces in it is the realistic case, and it must not be
    // allowed to spill past the modal's border.
    let path = "/volume1/downloads/".to_string() + &"x".repeat(60);
    let lines = wrap(&path, 20);
    assert!(lines.len() > 1);
    for line in &lines {
        assert!(display_width(line) <= 20, "{line:?}");
    }
    assert_eq!(lines.concat(), path);
}

#[test]
fn continuation_lines_keep_the_first_lines_indent() {
    let lines = wrap("    a reason that is much too long for this width", 20);
    assert!(lines.len() > 1);
    for line in &lines {
        assert!(line.starts_with("    "), "{line:?}");
        assert!(display_width(line) <= 20, "{line:?}");
    }

    // An indent that would swallow the line is dropped instead.
    let lines = wrap("          indented past the point of usefulness", 12);
    assert!(!lines[0].starts_with(' '), "{:?}", lines[0]);
}

#[test]
fn wrapping_counts_cells_not_characters() {
    let lines = wrap("千と千尋の神隠し 2001", 8);
    for line in &lines {
        assert!(display_width(line) <= 8, "{line:?}");
    }
    assert!(lines.len() >= 3, "{lines:?}");
}

/// The rendering of a byte count with `f64` arithmetic.
fn float_bytes(n: u64) -> String {
    let units = ["B", "KiB", "MiB", "GiB", "TiB"];
    let decimals = |unit: usize| if unit >= 2 { 1 } else { 0 };
    let rounded = |value: f64, places: usize| {
        let scale = if places == 0 { 1.0 } else { 10.0 };
        (value * scale).round() / scale
    };
    let mut value = n as f64;
    let mut unit = 0;
    while unit + 1 < units.len() && rounded(value, decimals(unit)) >= 1024.0 {
        value /= 1024.0;
        unit += 1;
    }
    format!("{value:.*} {}", decimals(unit), units[unit])
}

#[test]
fn whole_number_arithmetic_renders_what_floats_render() {
    let mut samples: Vec<u64> = vec![0, 1, 1023, 1024, u64::MAX, u64::MAX - 1, 1 << 53, (1 << 53) + 1];
    let mut n: u64 = 1;
    let mut seed: u64 = 0x9e37_79b9_7f4a_7c15;
    while n < u64::MAX / 3 {
        for k in [n - 1, n, n + 1, n + n / 2, n + n / 20] {
            samples.push(k);
        }
        seed = seed.wrapping_mul(6_364_136_223_846_793_005).wrapping_add(1);
        samples.push(seed >> (seed % 60));
        n = n * 2 + seed % 7;
    }
    for n in samples {
        assert_eq!(bytes(n), float_bytes(n), "{n}");
    }
}

#[test]
fn a_word_is_broken_into_pieces_that_fit() {
    assert_eq!(hard_break("abcdef", 4), vec!["abcd".to_string(), "ef".to_string()]);
    assert_eq!(hard_break("千と千", 4), vec!["千と".to_string(), "千".to_string()]);
    // A piece holds at least one character, however narrow the width.
    assert_eq!(hard_break("千と", 1), vec!["千".to_string(), "と".to_string()]);
}

/// Texts whose width is not the sum of the widths of their characters.
const UNEVEN: [&str; 6] = [
    "\u{2764}\u{fe0f}\u{2764}\u{fe0f}\u{2764}\u{fe0f}",
    "ab \u{2764}\u{fe0f}cd\u{2764}\u{fe0f} ef\u{2764}\u{fe0f}gh",
    "\u{644}\u{627}\u{644}\u{627}\u{644}\u{627} \u{644}\u{627}",
    "  \u{1f469}\u{200d}\u{1f469}\u{200d}\u{1f466}\u{1f469}\u{1f3fd} family",
    "a\tb\u{1}c\u{7f}d e\u{301}f",
    "\u{1f1e8}\u{1f1ed}\u{1f1e9}\u{1f1ea} \u{231a}\u{fe0e}\u{231a}",
];

#[test]
fn two_hearts_with_selectors_fit_in_three_cells() {
    assert_eq!(display_width("\u{2764}\u{fe0f}\u{2764}\u{fe0f}"), 4);
    let out = truncate_ellipsis("\u{2764}\u{fe0f}\u{2764}\u{fe0f}", 3);
    assert_eq!(out, "\u{2764}\u{fe0f}…");
    assert_eq!(display_width(&out), 3);
}

#[test]
fn what_is_shown_is_never_wider_than_asked_for_whatever_it_is_made_of() {
    for text in UNEVEN {
        for width in 0..=20 {
            let out = truncate_ellipsis(text, width);
            assert!(display_width(&out) <= width, "{text:?} at {width}: {out:?}");
            let lines = wrap(text, width);
            for line in &lines {
                assert!(
                    display_width(line) <= width || line.trim_start_matches(' ').chars().count() == 1,
                    "{text:?} at {width}: {line:?}"
                );
            }
            let squeeze = |text: &str| -> String { text.chars().filter(|c| !c.is_whitespace()).collect() };
            if width > 0 {
                assert_eq!(squeeze(&lines.concat()), squeeze(text), "{text:?} at {width}");
            }
            for piece in hard_break(text, width) {
                assert!(width == 0 || display_width(&piece) <= width || piece.chars().count() == 1);
            }
        }
    }
}

#[test]
fn plain_text_is_cut_to_the_cell() {
    assert_eq!(truncate_ellipsis("abcdef", 6), "abcdef");
    assert_eq!(truncate_ellipsis("abcdef", 5), "abcd…");
    assert_eq!(truncate_ellipsis("abcdef", 1), "…");
    assert_eq!(truncate_ellipsis("abcdef", 0), "");
}
