use jose::cursor::{cursor_to_row_col, row_col_to_cursor};
use jose::wrap::wrap_text;

fn strings(items: &[&str]) -> Vec<String> {
    items.iter().map(|s| s.to_string()).collect()
}

#[test]
fn wrap_cuts_every_width_characters() {
    assert_eq!(wrap_text("hello world foo", 10), strings(&["hello worl", "d foo"]));
}

#[test]
fn wrap_width_zero_keeps_text_whole() {
    assert_eq!(wrap_text("hello\nworld", 0), strings(&["hello\nworld"]));
}

#[test]
fn wrap_empty_text_is_one_empty_line() {
    assert_eq!(wrap_text("", 5), strings(&[""]));
    assert_eq!(wrap_text("", 0), strings(&[""]));
}

#[test]
fn wrap_keeps_empty_paragraphs() {
    assert_eq!(wrap_text("ab\n\ncd", 1), strings(&["a", "b", "", "c", "d"]));
    assert_eq!(wrap_text("ab\n", 5), strings(&["ab", ""]));
    assert_eq!(wrap_text("\n", 5), strings(&["", ""]));
}

#[test]
fn wrap_counts_scalar_values_not_bytes() {
    assert_eq!(wrap_text("héllo", 2), strings(&["hé", "ll", "o"]));
    assert_eq!(wrap_text("日本語テキスト", 3), strings(&["日本語", "テキス", "ト"]));
}

#[test]
fn wrap_exact_multiple_has_no_empty_tail() {
    assert_eq!(wrap_text("abcdef", 3), strings(&["abc", "def"]));
}

#[test]
fn wrap_is_idempotent_on_samples() {
    for text in ["hello world foo", "", "a\n\nb", "abcdef\nghi", "x\n", "日本語テキスト\nab"] {
        for width in 0..6usize {
            let once = wrap_text(text, width);
            let again = wrap_text(&once.join("\n"), width);
            assert_eq!(once, again, "text {:?} width {}", text, width);
        }
    }
}

#[test]
fn cursor_rows_and_columns() {
    assert_eq!(cursor_to_row_col("hello world", 0, 5), (0, 0));
    assert_eq!(cursor_to_row_col("hello world", 4, 5), (0, 4));
    assert_eq!(cursor_to_row_col("hello world", 5, 5), (1, 0));
    assert_eq!(cursor_to_row_col("hello world", 10, 5), (2, 0));
    assert_eq!(cursor_to_row_col("hello world", 11, 5), (2, 1));
    assert_eq!(cursor_to_row_col("ab\ncd", 3, 10), (1, 0));
    assert_eq!(cursor_to_row_col("ab\ncd", 5, 10), (1, 2));
}

#[test]
fn cursor_past_the_end_counts_as_the_end() {
    assert_eq!(cursor_to_row_col("abc", 99, 10), (0, 3));
}

#[test]
fn cursor_width_zero_counts_as_one() {
    assert_eq!(cursor_to_row_col("abc", 2, 0), cursor_to_row_col("abc", 2, 1));
    assert_eq!(cursor_to_row_col("abc", 2, 0), (2, 0));
    assert_eq!(row_col_to_cursor("abc", 2, 0, 0), 2);
}

#[test]
fn cursor_behind_a_full_row_stays_on_the_row() {
    assert_eq!(cursor_to_row_col("ab", 2, 2), (0, 2));
    assert_eq!(cursor_to_row_col("abcde", 5, 5), (0, 5));
    assert_eq!(cursor_to_row_col("abcd", 2, 2), (1, 0));
    assert_eq!(cursor_to_row_col("abcd", 4, 2), (1, 2));
    assert_eq!(cursor_to_row_col("ab\ncd", 2, 2), (0, 2));
    assert_eq!(cursor_to_row_col("ab\ncd", 3, 2), (1, 0));
    assert_eq!(cursor_to_row_col("ab\ncd", 5, 2), (1, 2));
    assert_eq!(cursor_to_row_col("a\n", 1, 1), (0, 1));
    assert_eq!(cursor_to_row_col("a\n", 2, 1), (1, 0));
}

#[test]
fn row_col_to_cursor_finds_and_clamps() {
    assert_eq!(row_col_to_cursor("hello world", 1, 2, 5), 7);
    assert_eq!(row_col_to_cursor("hello world", 0, 9, 5), 5);
    assert_eq!(row_col_to_cursor("hello world", 5, 0, 5), 11);
    assert_eq!(row_col_to_cursor("ab\ncd", 1, 1, 10), 4);
    assert_eq!(row_col_to_cursor("ab\ncd", 0, 7, 10), 2);
    assert_eq!(row_col_to_cursor("ab\n", 1, 3, 10), 3);
    assert_eq!(row_col_to_cursor("", 0, 0, 4), 0);
}

#[test]
fn round_trip_on_samples() {
    let samples = [
        "", "a", "ab", "abcde", "hello world", "ab\ncd", "abc\n\ndefgh\n", "日本語テキスト\nab",
        "abcd\nef", "\n\n", "abcdef\n",
    ];
    for text in samples {
        let len = text.chars().count();
        for width in 0..8usize {
            for pos in 0..=len {
                let (row, col) = cursor_to_row_col(text, pos, width);
                assert_eq!(
                    row_col_to_cursor(text, row, col, width),
                    pos,
                    "text {:?} width {} pos {}",
                    text,
                    width,
                    pos
                );
            }
        }
    }
}

#[test]
fn round_trip_at_the_end_of_a_full_row() {
    let (row, col) = cursor_to_row_col("abcde", 5, 5);
    assert_eq!(row_col_to_cursor("abcde", row, col, 5), 5);
    let (row, col) = cursor_to_row_col("ab\ncd", 2, 2);
    assert_eq!(row_col_to_cursor("ab\ncd", row, col, 2), 2);
    let (row, col) = cursor_to_row_col("ab\ncd", 3, 2);
    assert_eq!(row_col_to_cursor("ab\ncd", row, col, 2), 3);
}

#[test]
fn offsets_have_distinct_cells() {
    for text in ["abcde", "ab\ncd", "abc\n\ndefgh\n", "abcdef"] {
        let len = text.chars().count();
        for width in 1..7usize {
            let cells: Vec<(usize, usize)> =
                (0..=len).map(|pos| cursor_to_row_col(text, pos, width)).collect();
            for a in 0..cells.len() {
                for b in a + 1..cells.len() {
                    assert_ne!(cells[a], cells[b], "text {:?} width {}", text, width);
                }
            }
        }
    }
}

#[test]
fn cursor_rows_agree_with_wrapped_lines() {
    let text = "hello world\nfoo";
    let lines = wrap_text(text, 4);
    let (row, _) = cursor_to_row_col(text, text.chars().count(), 4);
    assert_eq!(row + 1, lines.len());
}

#[test]
fn cursor_is_always_on_a_wrapped_line() {
    for text in ["", "a", "ab", "hello world", "ab\ncd", "abc\n\ndefgh\n", "abcd\nef", "\n\n"] {
        let len = text.chars().count();
        for width in 0..7usize {
            let lines = wrap_text(text, width.max(1));
            for pos in 0..=len + 1 {
                let (row, col) = cursor_to_row_col(text, pos, width);
                assert!(row < lines.len(), "text {:?} width {} pos {}", text, width, pos);
                assert!(col <= lines[row].chars().count());
            }
        }
    }
}

#[test]
fn rows_found_by_offset_are_the_wrapped_lines() {
    for text in ["hello world", "ab\ncd", "abc\n\ndefgh\n", "日本語テキスト\nab"] {
        let chars: Vec<char> = text.chars().collect();
        for width in 1..6usize {
            let lines = wrap_text(text, width);
            for (row, line) in lines.iter().enumerate() {
                let start = row_col_to_cursor(text, row, 0, width);
                let end = row_col_to_cursor(text, row, usize::MAX, width);
                let found: String = chars[start..end].iter().collect();
                assert_eq!(&found, line, "text {:?} width {} row {}", text, width, row);
            }
            assert_eq!(row_col_to_cursor(text, lines.len(), 0, width), chars.len());
        }
    }
}

#[test]
fn cell_round_trip_on_samples() {
    for text in ["", "abcde", "hello world", "ab\ncd", "abc\n\ndefgh\n", "日本語テキスト\nab"] {
        let chars: Vec<char> = text.chars().collect();
        for width in 1..7usize {
            let lines = wrap_text(text, width);
            for (row, line) in lines.iter().enumerate() {
                let len = line.chars().count();
                for col in 0..=len {
                    let pos = row_col_to_cursor(text, row, col, width);
                    let cut = col == len && pos < chars.len() && chars[pos] != '\n';
                    if !cut {
                        assert_eq!(
                            cursor_to_row_col(text, pos, width),
                            (row, col),
                            "text {:?} width {}",
                            text,
                            width
                        );
                    } else {
                        assert_eq!(cursor_to_row_col(text, pos, width), (row + 1, 0));
                    }
                }
            }
        }
    }
}
