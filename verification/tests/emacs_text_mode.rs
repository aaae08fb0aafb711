//! Motions over a read-only buffer.

use herdr::emacs::text_mode::{backward_char, backward_word, buffer_end, clamp, forward_char};
use herdr::emacs::text_mode::{forward_word, line_beginning, line_end, next_line, previous_line};
use herdr::emacs::text_mode::{Lines, Pos};

/// 0: "alpha one"
/// 1: ""
/// 2: "  bravo_2 charlie"
/// 3: "delta"
fn buf() -> Lines {
    Lines { lines: vec![
        "alpha one".into(),
        "".into(),
        "  bravo_2 charlie".into(),
        "delta".into(),
    ] }
}

fn p(row: u32, col: u16) -> Pos {
    Pos { row, col }
}

#[test]
fn char_motions_wrap_lines_and_stop_at_buffer_ends() {
    let b = buf();
    assert_eq!(forward_char(&b, p(0, 0)), p(0, 1));
    // point may sit at end-of-line (col == line length)
    assert_eq!(forward_char(&b, p(0, 8)), p(0, 9));
    assert_eq!(forward_char(&b, p(0, 9)), p(1, 0));
    assert_eq!(forward_char(&b, p(1, 0)), p(2, 0));
    assert_eq!(forward_char(&b, p(3, 5)), p(3, 5), "buffer end sticks");
    assert_eq!(backward_char(&b, p(0, 0)), p(0, 0), "buffer start sticks");
    assert_eq!(backward_char(&b, p(1, 0)), p(0, 9));
    assert_eq!(backward_char(&b, p(2, 1)), p(2, 0));
}

#[test]
fn line_motions_clamp_to_line_length() {
    let b = buf();
    assert_eq!(next_line(&b, p(0, 7)), p(1, 0), "clamped to empty line");
    assert_eq!(next_line(&b, p(2, 17)), p(3, 5));
    assert_eq!(next_line(&b, p(3, 2)), p(3, 2), "last line sticks");
    assert_eq!(previous_line(&b, p(2, 10)), p(1, 0));
    assert_eq!(previous_line(&b, p(0, 4)), p(0, 4), "first line sticks");
    assert_eq!(line_beginning(p(2, 9)), p(2, 0));
    assert_eq!(line_end(&b, p(2, 0)), p(2, 17));
}

#[test]
fn word_motions_cross_lines() {
    let b = buf();
    // M-f from start of "alpha one" -> end of "alpha"
    assert_eq!(forward_word(&b, p(0, 0)), p(0, 5));
    assert_eq!(forward_word(&b, p(0, 5)), p(0, 9)); // end of "one"
                                                    // crossing the empty line to "bravo_2" ('_' is a word char)
    assert_eq!(forward_word(&b, p(0, 9)), p(2, 9));
    assert_eq!(backward_word(&b, p(2, 9)), p(2, 2));
    assert_eq!(backward_word(&b, p(2, 2)), p(0, 6)); // back to start of "one"
    assert_eq!(forward_word(&b, p(3, 5)), p(3, 5), "buffer end sticks");
}

#[test]
fn buffer_end_and_clamp() {
    let b = buf();
    assert_eq!(buffer_end(&b), p(3, 5));
    assert_eq!(clamp(&b, p(99, 99)), p(3, 5));
    assert_eq!(clamp(&b, p(2, 99)), p(2, 17));
    assert_eq!(clamp(&b, p(0, 3)), p(0, 3));
}
