use winfetch::render::{
    first_row, fits, is_full_terminal, render_rows, widest_label, widest_value, FactRow,
};

const ACCENT: &str = "\x1b[1m\x1b[38;2;137;187;234m";
const RESET: &str = "\x1b[0m";
const SEPARATOR: &str = " \x1b[38;2;137;187;234m: \x1b[38;2;224;155;187m";

fn rows(items: &[(&str, &str)]) -> Vec<FactRow> {
    items
        .iter()
        .map(|(label, value)| FactRow { label: label.to_string(), value: value.to_string() })
        .collect()
}

fn art(height: usize) -> Vec<String> {
    (0..height).map(|i| format!("A{}", i)).collect()
}

fn many(count: usize) -> Vec<FactRow> {
    (0..count)
        .map(|i| FactRow { label: format!("L{}", i), value: format!("v{}", i) })
        .collect()
}

#[test]
fn terminal_is_full_above_37_lines_tall() {
    assert!(!is_full_terminal(0));
    assert!(!is_full_terminal(37));
    assert!(is_full_terminal(38));
    assert!(is_full_terminal(usize::MAX));
}

#[test]
fn block_is_centred_on_the_art() {
    assert_eq!(first_row(10, 2, false), 3);
    assert_eq!(first_row(19, 9, false), 4);
    assert_eq!(first_row(20, 9, false), 4);
    assert_eq!(first_row(21, 9, false), 5);
    assert_eq!(first_row(11, 9, false), 0);
}

#[test]
fn block_is_lifted_in_the_large_art() {
    assert_eq!(first_row(40, 9, true), 12);
    assert_eq!(first_row(40, 9, false), 14);
    assert_eq!(first_row(40, 7, true), 15);
    assert_eq!(first_row(40, 6, true), 16);
    assert_eq!(first_row(40, 12, true), 8);
}

#[test]
fn block_never_starts_above_the_art() {
    assert_eq!(first_row(0, 9, false), 0);
    assert_eq!(first_row(0, 9, true), 0);
    assert_eq!(first_row(5, 9, false), 0);
    assert_eq!(first_row(40, 30, true), 0);
    assert_eq!(first_row(13, 9, true), 0);
    assert_eq!(first_row(0, 0, true), 0);
}

#[test]
fn rendering_fits_unless_the_counts_are_huge() {
    assert!(fits(40, 9, true));
    assert!(fits(0, 0, false));
    assert!(fits(usize::MAX, 9, false));
    assert!(fits(usize::MAX, 9, true));
    assert!(!fits(0, usize::MAX, false));
    assert!(!fits(0, usize::MAX - 3, false));
    assert!(fits(0, usize::MAX - 4, false));
}

#[test]
fn widest_label_and_value_in_bytes() {
    let rows = rows(&[("OS", "Windows"), ("Résolution", "1x1"), ("", "")]);
    assert_eq!(widest_label(&rows), 11);
    assert_eq!(widest_value(&rows), 7);
    assert_eq!(widest_label(&Vec::new()), 0);
    assert_eq!(widest_value(&Vec::new()), 0);
}

#[test]
fn rows_stand_beside_the_art() {
    let lines = render_rows(&rows(&[("OS", "Win"), ("CPU", "X")]), &art(10), "SW", false, "me");
    let expected = vec![
        "A0".to_string(),
        "A1".to_string(),
        "A2".to_string(),
        format!("A3    {}@me", ACCENT),
        format!("A4  {}\u{2014}\u{2014}\u{2014}\u{2014}\u{2014}\u{2014}\u{2014}", ACCENT),
        format!("A5  {}OS{} {}Win", ACCENT, RESET, SEPARATOR),
        format!("A6  {}CPU{}{}X", ACCENT, RESET, SEPARATOR),
        "A7".to_string(),
        "A8    SW".to_string(),
        "A9".to_string(),
    ];
    assert_eq!(lines, expected);
}

#[test]
fn rows_below_the_art_have_no_art() {
    let lines = render_rows(&rows(&[("K", "value")]), &art(2), "SW", false, "u");
    let expected = vec![
        format!("A0     {}@u", ACCENT),
        format!("A1  {}\u{2014}\u{2014}\u{2014}\u{2014}\u{2014}\u{2014}\u{2014}", ACCENT),
        format!("  {}K{}{}value", ACCENT, RESET, SEPARATOR),
        String::new(),
        "    SW".to_string(),
    ];
    assert_eq!(lines, expected);
}

#[test]
fn rendering_without_art_and_rows() {
    let lines = render_rows(&Vec::new(), &Vec::new(), "", true, "");
    let expected = vec![
        format!("  {}@", ACCENT),
        format!("  {}\u{2014}", ACCENT),
        String::new(),
        "    ".to_string(),
    ];
    assert_eq!(lines, expected);
}

#[test]
fn line_count_is_the_art_or_the_block_with_its_swatch() {
    for (height, count, full) in [
        (0, 0, false),
        (0, 9, true),
        (5, 9, false),
        (12, 9, false),
        (13, 9, false),
        (14, 9, false),
        (15, 9, false),
        (16, 9, true),
        (20, 9, true),
        (40, 9, true),
        (40, 30, true),
        (40, 38, false),
        (3, 1, false),
    ] {
        let start = first_row(height, count, full);
        let lines = render_rows(&many(count), &art(height), "SW", full, "name");
        assert_eq!(
            lines.len(),
            std::cmp::max(height, start + (count + 2) + 2),
            "{} {} {}",
            height,
            count,
            full
        );
    }
}

#[test]
fn start_row_holds_the_username_header() {
    for (height, count, full) in [(0, 0, false), (5, 9, false), (20, 9, true), (40, 9, true), (40, 3, false)] {
        let start = first_row(height, count, full);
        let lines = render_rows(&many(count), &art(height), "SW", full, "somebody");
        assert!(lines[start].ends_with("@somebody"), "{}", lines[start]);
        for (i, line) in lines.iter().enumerate() {
            assert_eq!(line.contains("@somebody"), i == start);
        }
    }
}

#[test]
fn rows_outside_the_block_are_the_art_alone() {
    let lines = render_rows(&many(3), &art(30), "SW", false, "x");
    let start = first_row(30, 3, false);
    assert_eq!(start, 12);
    for (i, line) in lines.iter().enumerate() {
        let inside = (start <= i && i < start + 5) || i == start + 6;
        assert_eq!(*line == format!("A{}", i), !inside, "row {}", i);
    }
    assert_eq!(lines[start + 5], format!("A{}", start + 5));
}

#[test]
fn username_is_centred_and_trimmed() {
    let lines = render_rows(
        &rows(&[("Kernel", "0123456789")]),
        &art(1),
        "",
        false,
        "pc  \t",
    );
    assert_eq!(lines[0], format!("A0        {}@pc", ACCENT));
    assert_eq!(lines[1], format!("  {}{}", ACCENT, "\u{2014}".repeat(17)));
}

#[test]
fn values_lose_their_trailing_whitespace() {
    let lines = render_rows(
        &rows(&[("CPU", "Intel(R) Core(TM)   "), ("GPU", " x ")]),
        &Vec::new(),
        "",
        false,
        "u",
    );
    assert_eq!(lines[2], format!("  {}CPU{}{}Intel(R) Core(TM)", ACCENT, RESET, SEPARATOR));
    assert_eq!(lines[3], format!("  {}GPU{}{} x", ACCENT, RESET, SEPARATOR));
    assert_eq!(lines[1], format!("  {}{}", ACCENT, "\u{2014}".repeat(24)));
}

#[test]
fn labels_are_padded_to_the_widest() {
    let lines = render_rows(
        &rows(&[("Resolution", "a"), ("OS", "b"), ("", "c")]),
        &Vec::new(),
        "",
        false,
        "",
    );
    assert_eq!(lines[2], format!("  {}Resolution{}{}a", ACCENT, RESET, SEPARATOR));
    assert_eq!(lines[3], format!("  {}OS{}        {}b", ACCENT, RESET, SEPARATOR));
    assert_eq!(lines[4], format!("  {}{}          {}c", ACCENT, RESET, SEPARATOR));
}

#[test]
fn swatch_is_centred_on_a_wide_block() {
    let value = "v".repeat(40);
    let lines = render_rows(&rows(&[("Disk", &value)]), &art(1), "[swatch]", false, "u");
    assert_eq!(lines.len(), 5);
    assert_eq!(lines[4], format!("{}[swatch]", " ".repeat(14)));
    assert_eq!(lines[0], format!("A0  {}{}@u", " ".repeat(22), ACCENT));
}

#[test]
fn swatch_indent_is_four_on_a_narrow_block() {
    for width in [0usize, 5, 18, 19, 20] {
        let value = "v".repeat(width);
        let lines = render_rows(&rows(&[("Disk", &value)]), &Vec::new(), "#", false, "");
        let pad = if 4 + 1 + width >= 24 { (4 + 1 + width - 24) / 2 + 4 } else { 4 };
        assert_eq!(lines[4], format!("{}#", " ".repeat(pad)));
    }
}

#[test]
fn widths_count_bytes() {
    let lines = render_rows(&rows(&[("Clé", "é")]), &Vec::new(), "", false, "");
    assert_eq!(lines[1], format!("  {}{}", ACCENT, "\u{2014}".repeat(7)));
    assert_eq!(lines[2], format!("  {}Clé{}{}é", ACCENT, RESET, SEPARATOR));
}

#[test]
fn rendering_twice_gives_the_same_lines() {
    let rows = many(9);
    let art = art(20);
    assert_eq!(
        render_rows(&rows, &art, "SW", true, "name"),
        render_rows(&rows, &art, "SW", true, "name")
    );
}
