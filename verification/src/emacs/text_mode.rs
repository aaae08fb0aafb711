//! Text mode: a point and a mark over a frozen, read-only view of a pane's scrollback.
//!
//! Rows count from the top of the scrollback; a column is a character index in its row. One
//! character is taken to be one grid column.

use crate::emacs::isearch::IsearchState;
use crate::sexp::{is_word, word_char};
use vstd::prelude::*;

verus! {

/// A position in a buffer.
#[derive(Debug, Clone, Copy, PartialEq, Eq, PartialOrd, Ord, Structural)]
pub struct Pos {
    pub row: u32,
    pub col: u16,
}

impl Pos {
    /// The order of reading: by row, then by column.
    pub open spec fn before(self, other: Pos) -> bool {
        self.row < other.row || (self.row == other.row && self.col < other.col)
    }

    pub open spec fn at_or_before(self, other: Pos) -> bool {
        self == other || self.before(other)
    }

    pub fn is_before(&self, other: &Pos) -> (r: bool)
        ensures
            r == self.before(*other),
    {
        self.row < other.row || (self.row == other.row && self.col < other.col)
    }
}

/// A text-mode session on a pane.
#[derive(Debug, PartialEq, Eq)]
pub struct TextModeState {
    pub pane_id: u64,
    pub point: Pos,
    pub mark: Option<Pos>,
    /// The region between point and mark is active.
    pub mark_active: bool,
    /// Where the pane was scrolled to when the session began.
    pub entry_offset_from_bottom: usize,
    /// What has been typed at the goto-line prompt, while it is open.
    pub goto_line: Option<String>,
    /// The incremental search, while one is active.
    pub isearch: Option<IsearchState>,
}

/// A read-only buffer of rows.
pub trait TextBuffer {
    /// The number of rows.
    spec fn rows(&self) -> u32;

    /// The text of a row; empty behind the last.
    spec fn text(&self, row: u32) -> Seq<char>;

    fn total_rows(&self) -> (r: u32)
        ensures
            r == self.rows(),
    ;

    fn line(&self, row: u32) -> (r: String)
        ensures
            r@ == self.text(row),
    ;
}

/// A buffer held as lines.
#[derive(Debug, PartialEq, Eq)]
pub struct Lines {
    pub lines: Vec<String>,
}

impl TextBuffer for Lines {
    open spec fn rows(&self) -> u32 {
        if self.lines@.len() < u32::MAX {
            self.lines@.len() as u32
        } else {
            u32::MAX
        }
    }

    open spec fn text(&self, row: u32) -> Seq<char> {
        if row < self.lines@.len() {
            self.lines@[row as int]@
        } else {
            Seq::empty()
        }
    }

    fn total_rows(&self) -> (r: u32) {
        if self.lines.len() as u64 >= u32::MAX as u64 {
            u32::MAX
        } else {
            self.lines.len() as u32
        }
    }

    fn line(&self, row: u32) -> (r: String) {
        if (row as u64) < self.lines.len() as u64 {
            self.lines[row as usize].clone()
        } else {
            String::new()
        }
    }
}

/// The length of a row, at most the largest column.
pub open spec fn row_len<B: TextBuffer>(buf: &B, row: u32) -> u16 {
    if buf.text(row).len() < u16::MAX {
        buf.text(row).len() as u16
    } else {
        u16::MAX
    }
}

pub open spec fn final_row<B: TextBuffer>(buf: &B) -> u32 {
    if buf.rows() == 0 {
        0
    } else {
        (buf.rows() - 1) as u32
    }
}

/// The end of the last row.
pub open spec fn end_of<B: TextBuffer>(buf: &B) -> Pos {
    Pos { row: final_row(buf), col: row_len(buf, final_row(buf)) }
}

/// The position lies in the buffer; the column may be one past the last character.
pub open spec fn inside<B: TextBuffer>(buf: &B, pos: Pos) -> bool {
    pos.row <= final_row(buf) && pos.col <= row_len(buf, pos.row)
}

pub open spec fn clamped<B: TextBuffer>(buf: &B, pos: Pos) -> Pos {
    let row = if pos.row < final_row(buf) {
        pos.row
    } else {
        final_row(buf)
    };
    Pos {
        row,
        col: if pos.col < row_len(buf, row) {
            pos.col
        } else {
            row_len(buf, row)
        },
    }
}

/// One character on from a position in the buffer; the end stays where it is.
pub open spec fn char_after<B: TextBuffer>(buf: &B, pos: Pos) -> Pos {
    if pos.col < row_len(buf, pos.row) {
        Pos { row: pos.row, col: (pos.col + 1) as u16 }
    } else if pos.row < final_row(buf) {
        Pos { row: (pos.row + 1) as u32, col: 0 }
    } else {
        pos
    }
}

/// One character back from a position in the buffer; the start stays where it is.
pub open spec fn char_before<B: TextBuffer>(buf: &B, pos: Pos) -> Pos {
    if pos.col > 0 {
        Pos { row: pos.row, col: (pos.col - 1) as u16 }
    } else if pos.row > 0 {
        let row = (pos.row - 1) as u32;
        Pos { row, col: row_len(buf, row) }
    } else {
        pos
    }
}

/// A word character stands at the position.
pub open spec fn word_at<B: TextBuffer>(buf: &B, pos: Pos) -> bool {
    pos.col < buf.text(pos.row).len() && word_char(buf.text(pos.row)[pos.col as int])
}

fn line_len<B: TextBuffer>(buf: &B, row: u32) -> (r: u16)
    ensures
        r == row_len(buf, row),
{
    let len: usize = buf.line(row).as_str().unicode_len();
    if len < u16::MAX as usize {
        len as u16
    } else {
        u16::MAX
    }
}

fn last_row<B: TextBuffer>(buf: &B) -> (r: u32)
    ensures
        r == final_row(buf),
{
    let rows: u32 = buf.total_rows();
    if rows == 0 {
        0
    } else {
        rows - 1
    }
}

/// The nearest position in the buffer.
pub fn clamp<B: TextBuffer>(buf: &B, pos: Pos) -> (r: Pos)
    ensures
        r == clamped(buf, pos),
        inside(buf, r),
{
    let last: u32 = last_row(buf);
    let row: u32 = if pos.row < last {
        pos.row
    } else {
        last
    };
    let len: u16 = line_len(buf, row);
    Pos {
        row,
        col: if pos.col < len {
            pos.col
        } else {
            len
        },
    }
}

pub fn forward_char<B: TextBuffer>(buf: &B, pos: Pos) -> (r: Pos)
    ensures
        r == char_after(buf, clamped(buf, pos)),
{
    let pos = clamp(buf, pos);
    if pos.col < line_len(buf, pos.row) {
        Pos { row: pos.row, col: pos.col + 1 }
    } else if pos.row < last_row(buf) {
        Pos { row: pos.row + 1, col: 0 }
    } else {
        pos
    }
}

pub fn backward_char<B: TextBuffer>(buf: &B, pos: Pos) -> (r: Pos)
    ensures
        r == char_before(buf, clamped(buf, pos)),
{
    let pos = clamp(buf, pos);
    if pos.col > 0 {
        Pos { row: pos.row, col: pos.col - 1 }
    } else if pos.row > 0 {
        let row: u32 = pos.row - 1;
        Pos { row, col: line_len(buf, row) }
    } else {
        pos
    }
}

/// The same column one row down, as far as that row goes.
pub open spec fn row_after<B: TextBuffer>(buf: &B, pos: Pos) -> Pos {
    if pos.row < final_row(buf) {
        clamped(buf, Pos { row: (pos.row + 1) as u32, col: pos.col })
    } else {
        pos
    }
}

/// The same column one row up, as far as that row goes.
pub open spec fn row_before<B: TextBuffer>(buf: &B, pos: Pos) -> Pos {
    if pos.row > 0 {
        clamped(buf, Pos { row: (pos.row - 1) as u32, col: pos.col })
    } else {
        pos
    }
}

pub fn next_line<B: TextBuffer>(buf: &B, pos: Pos) -> (r: Pos)
    ensures
        r == row_after(buf, clamped(buf, pos)),
{
    let pos = clamp(buf, pos);
    if pos.row < last_row(buf) {
        clamp(buf, Pos { row: pos.row + 1, col: pos.col })
    } else {
        pos
    }
}

pub fn previous_line<B: TextBuffer>(buf: &B, pos: Pos) -> (r: Pos)
    ensures
        r == row_before(buf, clamped(buf, pos)),
{
    let pos = clamp(buf, pos);
    if pos.row > 0 {
        clamp(buf, Pos { row: pos.row - 1, col: pos.col })
    } else {
        pos
    }
}

pub fn line_beginning(pos: Pos) -> (r: Pos)
    ensures
        r == (Pos { row: pos.row, col: 0 }),
{
    Pos { row: pos.row, col: 0 }
}

pub fn line_end<B: TextBuffer>(buf: &B, pos: Pos) -> (r: Pos)
    ensures
        r == (Pos { row: clamped(buf, pos).row, col: row_len(buf, clamped(buf, pos).row) }),
{
    let pos = clamp(buf, pos);
    Pos { row: pos.row, col: line_len(buf, pos.row) }
}

pub open spec fn spec_buffer_beginning() -> Pos {
    Pos { row: 0, col: 0 }
}

#[verifier::when_used_as_spec(spec_buffer_beginning)]
pub fn buffer_beginning() -> (r: Pos)
    ensures
        r == spec_buffer_beginning(),
{
    Pos { row: 0, col: 0 }
}

pub fn buffer_end<B: TextBuffer>(buf: &B) -> (r: Pos)
    ensures
        r == end_of(buf),
{
    let row: u32 = last_row(buf);
    Pos { row, col: line_len(buf, row) }
}

fn is_word_at<B: TextBuffer>(buf: &B, pos: Pos) -> (r: bool)
    ensures
        r == word_at(buf, pos),
{
    let line = buf.line(pos.row);
    if (pos.col as usize) < line.as_str().unicode_len() {
        is_word(line.as_str().get_char(pos.col as usize))
    } else {
        false
    }
}

/// On from a position in the buffer, past all that are (`word`) or are not word characters.
pub open spec fn skipped_on<B: TextBuffer>(buf: &B, pos: Pos, word: bool) -> Pos
    decreases final_row(buf) - pos.row, row_len(buf, pos.row) - pos.col,
    when inside(buf, pos)
{
    if pos.before(end_of(buf)) && word_at(buf, pos) == word {
        skipped_on(buf, char_after(buf, pos), word)
    } else {
        pos
    }
}

/// Back from a position in the buffer, past all that are (`word`) or are not word characters.
pub open spec fn skipped_back<B: TextBuffer>(buf: &B, pos: Pos, word: bool) -> Pos
    decreases pos.row, pos.col,
{
    if buffer_beginning().before(pos) && word_at(buf, char_before(buf, pos)) == word {
        skipped_back(buf, char_before(buf, pos), word)
    } else {
        pos
    }
}

/// To the end of the word at or after the position, across rows.
pub open spec fn word_end_after<B: TextBuffer>(buf: &B, pos: Pos) -> Pos {
    skipped_on(buf, skipped_on(buf, clamped(buf, pos), false), true)
}

/// To the start of the word at or before the position, across rows.
pub open spec fn word_start_before<B: TextBuffer>(buf: &B, pos: Pos) -> Pos {
    skipped_back(buf, skipped_back(buf, clamped(buf, pos), false), true)
}

pub fn forward_word<B: TextBuffer>(buf: &B, pos: Pos) -> (r: Pos)
    ensures
        r == word_end_after(buf, pos),
{
    let mut at = clamp(buf, pos);
    let end = buffer_end(buf);
    while at.is_before(&end) && !is_word_at(buf, at)
        invariant
            end == end_of(buf),
            inside(buf, at),
            skipped_on(buf, clamped(buf, pos), false) == skipped_on(buf, at, false),
        decreases final_row(buf) - at.row, row_len(buf, at.row) - at.col,
    {
        at = forward_char(buf, at);
    }
    while at.is_before(&end) && is_word_at(buf, at)
        invariant
            end == end_of(buf),
            inside(buf, at),
            word_end_after(buf, pos) == skipped_on(buf, at, true),
        decreases final_row(buf) - at.row, row_len(buf, at.row) - at.col,
    {
        at = forward_char(buf, at);
    }
    at
}

pub fn backward_word<B: TextBuffer>(buf: &B, pos: Pos) -> (r: Pos)
    ensures
        r == word_start_before(buf, pos),
{
    let mut at = clamp(buf, pos);
    let start = buffer_beginning();
    while start.is_before(&at) && !is_word_at(buf, backward_char(buf, at))
        invariant
            start == buffer_beginning(),
            inside(buf, at),
            skipped_back(buf, clamped(buf, pos), false) == skipped_back(buf, at, false),
        decreases at.row, at.col,
    {
        at = backward_char(buf, at);
    }
    while start.is_before(&at) && is_word_at(buf, backward_char(buf, at))
        invariant
            start == buffer_beginning(),
            inside(buf, at),
            word_start_before(buf, pos) == skipped_back(buf, at, true),
        decreases at.row, at.col,
    {
        at = backward_char(buf, at);
    }
    at
}

/// Moving one character on and one back returns, except from the end of the buffer.
pub proof fn char_motions_undo_each_other<B: TextBuffer>(buf: &B, pos: Pos)
    requires
        inside(buf, pos),
    ensures
        pos != end_of(buf) ==> char_before(buf, char_after(buf, pos)) == pos,
        pos != buffer_beginning() ==> char_after(buf, char_before(buf, pos)) == pos,
        char_after(buf, end_of(buf)) == end_of(buf),
        char_before(buf, buffer_beginning()) == buffer_beginning(),
{
}

/// Every motion stays in the buffer.
pub proof fn motions_stay_inside<B: TextBuffer>(buf: &B, pos: Pos)
    ensures
        inside(buf, clamped(buf, pos)),
        inside(buf, char_after(buf, clamped(buf, pos))),
        inside(buf, char_before(buf, clamped(buf, pos))),
        inside(buf, row_after(buf, clamped(buf, pos))),
        inside(buf, row_before(buf, clamped(buf, pos))),
        inside(buf, end_of(buf)),
        inside(buf, buffer_beginning()),
        inside(buf, word_end_after(buf, pos)),
        inside(buf, word_start_before(buf, pos)),
        clamped(buf, pos).at_or_before(word_end_after(buf, pos)),
        word_start_before(buf, pos).at_or_before(clamped(buf, pos)),
{
    lemma_skipped_on(buf, clamped(buf, pos), false);
    lemma_skipped_on(buf, skipped_on(buf, clamped(buf, pos), false), true);
    lemma_skipped_back(buf, clamped(buf, pos), false);
    lemma_skipped_back(buf, skipped_back(buf, clamped(buf, pos), false), true);
}

proof fn lemma_skipped_on<B: TextBuffer>(buf: &B, pos: Pos, word: bool)
    requires
        inside(buf, pos),
    ensures
        inside(buf, skipped_on(buf, pos, word)),
        pos.at_or_before(skipped_on(buf, pos, word)),
    decreases final_row(buf) - pos.row, row_len(buf, pos.row) - pos.col,
{
    if pos.before(end_of(buf)) && word_at(buf, pos) == word {
        lemma_skipped_on(buf, char_after(buf, pos), word);
    }
}

proof fn lemma_skipped_back<B: TextBuffer>(buf: &B, pos: Pos, word: bool)
    requires
        inside(buf, pos),
    ensures
        inside(buf, skipped_back(buf, pos, word)),
        skipped_back(buf, pos, word).at_or_before(pos),
    decreases pos.row, pos.col,
{
    if buffer_beginning().before(pos) && word_at(buf, char_before(buf, pos)) == word {
        lemma_skipped_back(buf, char_before(buf, pos), word);
    }
}

} // verus!
