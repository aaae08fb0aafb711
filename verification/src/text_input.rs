//! Single-line editing state shared by the text fields of the interface.
//!
//! The text itself belongs to the caller; the state holds the cursor, the selection anchor and the
//! text as it was last seen, so that a text replaced behind its back puts the cursor at its end.

use crate::input::{KeyCode, KeyEvent, KeyModifiers};
use crate::sexp::{
    backward_sexp_start, backward_up_list_start, down_list_start, enclosing_before, entered_after,
    forward_sexp_end, is_word, opt_int, sexp_end, sexp_motions_are_bounded, sexp_start, word_char,
};
use crate::text::{char_is_control, chars_of, is_control, same_text, string_of};
use vstd::prelude::*;

verus! {

/// An editing command of a text field.
#[derive(Debug, Clone, Copy, PartialEq, Eq, Structural)]
pub enum TextInputAction {
    MoveBeginning,
    MoveEnd,
    BackwardChar,
    ForwardChar,
    BackwardWord,
    ForwardWord,
    BackwardSexp,
    ForwardSexp,
    BackwardUpList,
    DownList,
    MarkSexp,
    DeleteBackward,
    DeleteForward,
    KillBeginning,
    KillEnd,
    KillBackwardWord,
    KillSexp,
    UnwrapSelection,
    ShrinkSelection,
    SelectAll,
    Yank,
}

/// The command that a key runs in a text field.
pub open spec fn key_action(key: KeyEvent) -> Option<TextInputAction> {
    let m = key.modifiers;
    match key.code {
        KeyCode::Char(c) => if m == KeyModifiers::control() {
            match c {
                'a' => Some(TextInputAction::MoveBeginning),
                'e' => Some(TextInputAction::MoveEnd),
                'b' => Some(TextInputAction::BackwardChar),
                'f' => Some(TextInputAction::ForwardChar),
                'd' => Some(TextInputAction::DeleteForward),
                'u' => Some(TextInputAction::KillBeginning),
                'k' => Some(TextInputAction::KillEnd),
                'w' => Some(TextInputAction::KillBackwardWord),
                'h' => Some(TextInputAction::KillBackwardWord),
                'y' => Some(TextInputAction::Yank),
                _ => None,
            }
        } else if m == KeyModifiers::alt() {
            match c {
                'b' => Some(TextInputAction::BackwardWord),
                'f' => Some(TextInputAction::ForwardWord),
                'h' => Some(TextInputAction::SelectAll),
                _ => None,
            }
        } else if c == '@' && m.control && m.alt {
            Some(TextInputAction::MarkSexp)
        } else if m == KeyModifiers::control_alt() {
            match c {
                'b' => Some(TextInputAction::BackwardSexp),
                'f' => Some(TextInputAction::ForwardSexp),
                'u' => Some(TextInputAction::BackwardUpList),
                'd' => Some(TextInputAction::DownList),
                ' ' => Some(TextInputAction::MarkSexp),
                'k' => Some(TextInputAction::KillSexp),
                'r' => Some(TextInputAction::ShrinkSelection),
                _ => None,
            }
        } else {
            None
        },
        KeyCode::Backspace => if m == KeyModifiers::none() {
            Some(TextInputAction::DeleteBackward)
        } else if m == KeyModifiers::control() || m == KeyModifiers::alt() {
            Some(TextInputAction::KillBackwardWord)
        } else if m == KeyModifiers::control_alt() {
            Some(TextInputAction::UnwrapSelection)
        } else {
            None
        },
        KeyCode::Delete => if m == KeyModifiers::none() {
            Some(TextInputAction::DeleteForward)
        } else {
            None
        },
        _ => None,
    }
}

/// The command that `key` runs in a text field.
pub fn action_for_key(key: KeyEvent) -> (r: Option<TextInputAction>)
    ensures
        r == key_action(key),
{
    let m = key.modifiers;
    let control = m == KeyModifiers::control();
    let alt = m == KeyModifiers::alt();
    let both = m == KeyModifiers::control_alt();
    match key.code {
        KeyCode::Char('a') if control => Some(TextInputAction::MoveBeginning),
        KeyCode::Char('e') if control => Some(TextInputAction::MoveEnd),
        KeyCode::Char('b') if control => Some(TextInputAction::BackwardChar),
        KeyCode::Char('f') if control => Some(TextInputAction::ForwardChar),
        KeyCode::Char('b') if alt => Some(TextInputAction::BackwardWord),
        KeyCode::Char('f') if alt => Some(TextInputAction::ForwardWord),
        KeyCode::Char('b') if both => Some(TextInputAction::BackwardSexp),
        KeyCode::Char('f') if both => Some(TextInputAction::ForwardSexp),
        KeyCode::Char('u') if both => Some(TextInputAction::BackwardUpList),
        KeyCode::Char('d') if both => Some(TextInputAction::DownList),
        KeyCode::Char(' ') if both => Some(TextInputAction::MarkSexp),
        KeyCode::Char('@') if m.control && m.alt => Some(TextInputAction::MarkSexp),
        KeyCode::Backspace if m == KeyModifiers::none() => Some(TextInputAction::DeleteBackward),
        KeyCode::Char('d') if control => Some(TextInputAction::DeleteForward),
        KeyCode::Delete if m == KeyModifiers::none() => Some(TextInputAction::DeleteForward),
        KeyCode::Char('u') if control => Some(TextInputAction::KillBeginning),
        KeyCode::Char('k') if control => Some(TextInputAction::KillEnd),
        KeyCode::Char('w') if control => Some(TextInputAction::KillBackwardWord),
        KeyCode::Char('h') if control => Some(TextInputAction::KillBackwardWord),
        KeyCode::Backspace if control || alt => Some(TextInputAction::KillBackwardWord),
        KeyCode::Char('k') if both => Some(TextInputAction::KillSexp),
        KeyCode::Backspace if both => Some(TextInputAction::UnwrapSelection),
        KeyCode::Char('r') if both => Some(TextInputAction::ShrinkSelection),
        KeyCode::Char('h') if alt => Some(TextInputAction::SelectAll),
        KeyCode::Char('y') if control => Some(TextInputAction::Yank),
        _ => None,
    }
}

/// The end of the run of characters from `i` on that are (`word`) or are not word characters.
pub open spec fn run_end(chars: Seq<char>, i: int, word: bool) -> int
    decreases chars.len() - i,
{
    if i < chars.len() && word_char(chars[i]) == word {
        run_end(chars, i + 1, word)
    } else {
        i
    }
}

/// The start of the run of characters before `i` that are (`word`) or are not word characters.
pub open spec fn run_start(chars: Seq<char>, i: int, word: bool) -> int
    decreases i,
{
    if 0 < i && word_char(chars[i - 1]) == word {
        run_start(chars, i - 1, word)
    } else {
        i
    }
}

pub open spec fn clamp_to(i: int, len: nat) -> int {
    if i < len {
        i
    } else {
        len as int
    }
}

/// The start of the word at or before `cursor`.
pub open spec fn word_start(chars: Seq<char>, cursor: int) -> int {
    run_start(chars, run_start(chars, clamp_to(cursor, chars.len()), false), true)
}

/// The end of the word at or after `cursor`.
pub open spec fn word_end(chars: Seq<char>, cursor: int) -> int {
    run_end(chars, run_end(chars, clamp_to(cursor, chars.len()), false), true)
}

/// The start of the word at or before `cursor`.
pub fn backward_word_start(chars: &[char], cursor: usize) -> (r: usize)
    ensures
        r == word_start(chars@, cursor as int),
        r <= chars@.len(),
        r <= cursor,
{
    let mut idx: usize = if cursor < chars.len() {
        cursor
    } else {
        chars.len()
    };
    while idx > 0 && !is_word(chars[idx - 1])
        invariant
            idx <= chars@.len(),
            idx <= cursor,
            run_start(chars@, clamp_to(cursor as int, chars@.len()), false) == run_start(
                chars@,
                idx as int,
                false,
            ),
        decreases idx,
    {
        idx -= 1;
    }
    while idx > 0 && is_word(chars[idx - 1])
        invariant
            idx <= chars@.len(),
            idx <= cursor,
            word_start(chars@, cursor as int) == run_start(chars@, idx as int, true),
        decreases idx,
    {
        idx -= 1;
    }
    idx
}

/// The end of the word at or after `cursor`.
pub fn forward_word_end(chars: &[char], cursor: usize) -> (r: usize)
    ensures
        r == word_end(chars@, cursor as int),
        r <= chars@.len(),
{
    let mut idx: usize = if cursor < chars.len() {
        cursor
    } else {
        chars.len()
    };
    while idx < chars.len() && !is_word(chars[idx])
        invariant
            idx <= chars@.len(),
            run_end(chars@, clamp_to(cursor as int, chars@.len()), false) == run_end(
                chars@,
                idx as int,
                false,
            ),
        decreases chars@.len() - idx,
    {
        idx += 1;
    }
    while idx < chars.len() && is_word(chars[idx])
        invariant
            idx <= chars@.len(),
            word_end(chars@, cursor as int) == run_end(chars@, idx as int, true),
        decreases chars@.len() - idx,
    {
        idx += 1;
    }
    idx
}

/// The characters of `s` that a field accepts: all but the control characters.
pub open spec fn printable(s: Seq<char>) -> Seq<char> {
    s.filter(|c: char| !char_is_control(c))
}

/// A field as it stands before a command: its text, the cursor and the selection anchor.
pub struct Field {
    pub text: Seq<char>,
    pub cursor: int,
    pub mark: Option<int>,
}

impl Field {
    /// Cursor and anchor lie in the text.
    pub open spec fn wf(self) -> bool {
        &&& 0 <= self.cursor <= self.text.len()
        &&& self.mark matches Some(m) ==> 0 <= m <= self.text.len()
    }

    /// The selected range: from the nearer to the farther of cursor and anchor.
    pub open spec fn selection(self) -> Option<(int, int)> {
        match self.mark {
            Some(m) => if m < self.cursor {
                Some((m, self.cursor))
            } else if self.cursor < m {
                Some((self.cursor, m))
            } else {
                None
            },
            None => None,
        }
    }

    pub open spec fn at(self, cursor: int) -> Field {
        Field { cursor, ..self }
    }

    /// The field without the characters `start..end`, the cursor where they were.
    pub open spec fn without(self, start: int, end: int) -> Field {
        Field {
            text: self.text.subrange(0, start) + self.text.subrange(end, self.text.len() as int),
            cursor: start,
            mark: None,
        }
    }

    pub open spec fn without_selection(self) -> Field {
        match self.selection() {
            Some((start, end)) => self.without(start, end),
            None => Field { mark: None, ..self },
        }
    }

    /// The field with what is printable of `s` in place of the selection, the cursor behind it.
    pub open spec fn with_inserted(self, s: Seq<char>) -> Field {
        let f = self.without_selection();
        Field {
            text: f.text.subrange(0, f.cursor) + printable(s) + f.text.subrange(
                f.cursor,
                f.text.len() as int,
            ),
            cursor: f.cursor + printable(s).len(),
            mark: None,
        }
    }

    /// The field with `start..end` killed, and the killed text unless it is empty.
    pub open spec fn killed(self, start: int, end: int) -> (Field, Option<Seq<char>>) {
        (
            self.without(start, end),
            if start < end {
                Some(self.text.subrange(start, end))
            } else {
                None
            },
        )
    }

    /// As `killed`, of the selection if there is one.
    pub open spec fn killed_selection_or(self, start: int, end: int) -> (Field, Option<Seq<char>>) {
        match self.selection() {
            Some((s, e)) => self.killed(s, e),
            None => self.killed(start, end),
        }
    }

    /// What a command makes of a field, and the text it kills.
    pub open spec fn applied(self, action: TextInputAction, yank: Seq<char>) -> (
        Field,
        Option<Seq<char>>,
    ) {
        let len = self.text.len() as int;
        match action {
            TextInputAction::MoveBeginning => (self.at(0), None),
            TextInputAction::MoveEnd => (self.at(len), None),
            TextInputAction::BackwardChar => (
                self.at(
                    if self.cursor > 0 {
                        self.cursor - 1
                    } else {
                        0
                    },
                ),
                None,
            ),
            TextInputAction::ForwardChar => (self.at(clamp_to(self.cursor + 1, len as nat)), None),
            TextInputAction::BackwardWord => (self.at(word_start(self.text, self.cursor)), None),
            TextInputAction::ForwardWord => (self.at(word_end(self.text, self.cursor)), None),
            TextInputAction::BackwardSexp => (self.at(sexp_start(self.text, self.cursor)), None),
            TextInputAction::ForwardSexp => (self.at(sexp_end(self.text, self.cursor)), None),
            TextInputAction::BackwardUpList => (
                self.at(enclosing_before(self.text, self.cursor, self.cursor)),
                None,
            ),
            TextInputAction::DownList => (
                self.at(entered_after(self.text, self.cursor, self.cursor)),
                None,
            ),
            TextInputAction::MarkSexp => {
                let end = sexp_end(self.text, self.cursor);
                (
                    Field {
                        mark: if end != self.cursor {
                            Some(end)
                        } else {
                            None
                        },
                        ..self
                    },
                    None,
                )
            },
            TextInputAction::DeleteBackward => (
                if self.selection() is None && self.cursor > 0 {
                    self.without(self.cursor - 1, self.cursor)
                } else {
                    self.without_selection()
                },
                None,
            ),
            TextInputAction::DeleteForward => (
                if self.selection() is None && self.cursor < len {
                    self.without(self.cursor, self.cursor + 1)
                } else {
                    self.without_selection()
                },
                None,
            ),
            TextInputAction::KillBeginning => self.killed(0, self.cursor),
            TextInputAction::KillEnd => self.killed_selection_or(self.cursor, len),
            TextInputAction::KillBackwardWord => self.killed_selection_or(
                word_start(self.text, self.cursor),
                self.cursor,
            ),
            TextInputAction::KillSexp => self.killed_selection_or(
                self.cursor,
                sexp_end(self.text, self.cursor),
            ),
            TextInputAction::UnwrapSelection => match self.selection() {
                Some((start, end)) if end - start >= 2 => (
                    Field {
                        mark: if end > start + 2 {
                            Some(end - 2)
                        } else {
                            None
                        },
                        ..self.without(end - 1, end).without(start, start + 1)
                    },
                    None,
                ),
                _ => (self, None),
            },
            TextInputAction::ShrinkSelection => match self.selection() {
                Some((start, end)) if end - start >= 2 => (
                    if self.cursor == start {
                        Field { cursor: start + 1, mark: Some(end - 1), ..self }
                    } else {
                        Field { cursor: end - 1, mark: Some(start + 1), ..self }
                    },
                    None,
                ),
                _ => (self, None),
            },
            TextInputAction::SelectAll => (Field { cursor: len, mark: Some(0), ..self }, None),
            TextInputAction::Yank => (self.with_inserted(yank), None),
        }
    }
}

/// The printable characters of `s`.
fn printable_of(s: &str) -> (r: String)
    ensures
        r@ == printable(s@),
{
    let chars = chars_of(s);
    let mut out = String::new();
    let ghost keep = |c: char| !char_is_control(c);
    let mut i: usize = 0;
    assert(s@.take(0).filter(keep) =~= Seq::<char>::empty()) by {
        reveal(Seq::filter);
    }
    while i < chars.len()
        invariant
            i <= chars@.len(),
            chars@ == s@,
            keep == (|c: char| !char_is_control(c)),
            out@ == s@.take(i as int).filter(keep),
        decreases chars@.len() - i,
    {
        proof {
            reveal(Seq::filter);
            assert(s@.take(i + 1).drop_last() =~= s@.take(i as int));
        }
        if !is_control(chars[i]) {
            out.push(chars[i]);
        }
        i += 1;
    }
    assert(s@.take(i as int) =~= s@);
    out
}

/// The characters `start..end` taken out of `text`.
fn cut(text: &str, start: usize, end: usize) -> (r: (String, String))
    requires
        start <= end <= text@.len(),
    ensures
        r.0@ == text@.subrange(0, start as int) + text@.subrange(end as int, text@.len() as int),
        r.1@ == text@.subrange(start as int, end as int),
{
    let chars = chars_of(text);
    let mut rest = string_of(chars.as_slice(), 0, start);
    rest.append(string_of(chars.as_slice(), end, chars.len()).as_str());
    (rest, string_of(chars.as_slice(), start, end))
}

/// `text` with `piece` before the character `at`.
fn splice(text: &str, at: usize, piece: &str) -> (r: String)
    requires
        at <= text@.len(),
    ensures
        r@ == text@.subrange(0, at as int) + piece@ + text@.subrange(at as int, text@.len() as int),
{
    let chars = chars_of(text);
    let mut out = string_of(chars.as_slice(), 0, at);
    out.append(piece);
    out.append(string_of(chars.as_slice(), at, chars.len()).as_str());
    out
}

fn non_empty(text: String) -> (r: Option<String>)
    ensures
        r == (if text@.len() > 0 {
            Some(text)
        } else {
            None
        }),
{
    if text.as_str().is_empty() {
        None
    } else {
        Some(text)
    }
}

/// The editing state of a text field.
#[derive(Debug, PartialEq, Eq)]
pub struct TextInputState {
    /// The cursor as a character index.
    pub cursor: usize,
    /// The anchor of the selection, if one is active.
    pub mark: Option<usize>,
    /// The text as the state last saw it.
    pub observed: String,
}

impl Clone for TextInputState {
    fn clone(&self) -> (r: Self)
        ensures
            r == *self,
    {
        TextInputState { cursor: self.cursor, mark: self.mark, observed: self.observed.clone() }
    }
}

impl Default for TextInputState {
    fn default() -> (r: Self)
        ensures
            r.cursor == 0,
            r.mark is None,
            r.observed@ == Seq::<char>::empty(),
    {
        TextInputState { cursor: 0, mark: None, observed: String::new() }
    }
}

impl TextInputState {
    /// The field that the state makes of `text`: a text other than the one last seen puts the
    /// cursor at its end and drops the selection.
    pub open spec fn field(&self, text: Seq<char>) -> Field {
        if self.observed@ != text {
            Field { text, cursor: text.len() as int, mark: None }
        } else {
            Field {
                text,
                cursor: clamp_to(self.cursor as int, text.len()),
                mark: match self.mark {
                    Some(m) => Some(clamp_to(m as int, text.len())),
                    None => None,
                },
            }
        }
    }

    /// The state holds exactly the field `f`.
    pub open spec fn holds(&self, f: Field) -> bool {
        &&& self.cursor == f.cursor
        &&& opt_int(self.mark) == f.mark
        &&& self.observed@ == f.text
    }

    /// A state with the cursor at the end of `text`.
    pub fn at_end(text: &str) -> (r: Self)
        ensures
            r.holds(Field { text: text@, cursor: text@.len() as int, mark: None }),
    {
        TextInputState { cursor: text.unicode_len(), mark: None, observed: text.to_owned() }
    }

    /// The cursor, kept inside `text`.
    pub fn cursor(&self, text: &str) -> (r: usize)
        ensures
            r == clamp_to(self.cursor as int, text@.len()),
    {
        let len: usize = text.unicode_len();
        if self.cursor < len {
            self.cursor
        } else {
            len
        }
    }

    /// The text with a block at the cursor.
    pub fn with_cursor(&self, text: &str) -> (r: String)
        ensures
            ({
                let at = clamp_to(self.cursor as int, text@.len());
                r@ == text@.subrange(0, at) + seq!['█'] + text@.subrange(at, text@.len() as int)
            }),
    {
        let mut block = String::new();
        block.push('█');
        assert(block@ =~= seq!['█']);
        splice(text, self.cursor(text), block.as_str())
    }

    /// Back to an empty field.
    pub fn reset(&mut self)
        ensures
            final(self).holds(Field { text: Seq::empty(), cursor: 0, mark: None }),
    {
        self.cursor = 0;
        self.mark = None;
        self.observed = String::new();
    }

    /// The cursor to the end of `text`, with no selection.
    pub fn move_to_end(&mut self, text: &str)
        ensures
            final(self).holds(Field { text: text@, cursor: text@.len() as int, mark: None }),
    {
        self.cursor = text.unicode_len();
        self.mark = None;
        self.observed = text.to_owned();
    }

    /// Puts what is printable of `inserted` in place of the selection, or at the cursor.
    pub fn insert_str(&mut self, text: &mut String, inserted: &str)
        ensures
            final(self).holds(old(self).field(old(text)@).with_inserted(inserted@)),
            final(text)@ == old(self).field(old(text)@).with_inserted(inserted@).text,
    {
        self.normalize(text.as_str());
        let ghost f = self.as_field();
        self.delete_selection(text);
        let filtered = printable_of(inserted);
        let kept: usize = filtered.as_str().unicode_len();
        *text = splice(text.as_str(), self.cursor, filtered.as_str());
        let total: usize = text.as_str().unicode_len();
        assert(self.cursor + kept <= total);
        self.cursor = self.cursor + kept;
        self.observed = text.clone();
    }

    /// Runs `action` on the field and returns the text it kills, if any.
    pub fn apply(&mut self, text: &mut String, action: TextInputAction, yank: &str) -> (r: Option<
        String,
    >)
        ensures
            final(self).holds(old(self).field(old(text)@).applied(action, yank@).0),
            final(text)@ == old(self).field(old(text)@).applied(action, yank@).0.text,
            match (r, old(self).field(old(text)@).applied(action, yank@).1) {
                (Some(killed), Some(k)) => killed@ == k,
                (None, None) => true,
                _ => false,
            },
    {
        self.normalize(text.as_str());
        let ghost f = self.as_field();
        assert(f == old(self).field(old(text)@));
        proof {
            sexp_motions_are_bounded(f.text, f.cursor);
        }
        let len: usize = text.as_str().unicode_len();
        match action {
            TextInputAction::MoveBeginning => self.set_cursor(0),
            TextInputAction::MoveEnd => self.set_cursor(len),
            TextInputAction::BackwardChar => {
                let at: usize = if self.cursor > 0 {
                    self.cursor - 1
                } else {
                    0
                };
                self.set_cursor(at)
            },
            TextInputAction::ForwardChar => {
                let at: usize = if self.cursor < len {
                    self.cursor + 1
                } else {
                    len
                };
                self.set_cursor(at)
            },
            TextInputAction::BackwardWord => {
                let chars = chars_of(text.as_str());
                let at: usize = backward_word_start(chars.as_slice(), self.cursor);
                self.set_cursor(at);
            },
            TextInputAction::ForwardWord => {
                let chars = chars_of(text.as_str());
                let at: usize = forward_word_end(chars.as_slice(), self.cursor);
                self.set_cursor(at);
            },
            TextInputAction::BackwardSexp => {
                let chars = chars_of(text.as_str());
                let at: usize = backward_sexp_start(chars.as_slice(), self.cursor);
                self.set_cursor(at);
            },
            TextInputAction::ForwardSexp => {
                let chars = chars_of(text.as_str());
                let at: usize = forward_sexp_end(chars.as_slice(), self.cursor);
                self.set_cursor(at);
            },
            TextInputAction::BackwardUpList => {
                let chars = chars_of(text.as_str());
                let at: usize = backward_up_list_start(chars.as_slice(), self.cursor);
                self.set_cursor(at);
            },
            TextInputAction::DownList => {
                let chars = chars_of(text.as_str());
                let at: usize = down_list_start(chars.as_slice(), self.cursor);
                self.set_cursor(at);
            },
            TextInputAction::MarkSexp => {
                let chars = chars_of(text.as_str());
                let end: usize = forward_sexp_end(chars.as_slice(), self.cursor);
                self.mark = if end != self.cursor {
                    Some(end)
                } else {
                    None
                };
            },
            TextInputAction::DeleteBackward => {
                if !self.delete_selection(text) && self.cursor > 0 {
                    let end: usize = self.cursor;
                    self.delete_range(text, end - 1, end);
                }
            },
            TextInputAction::DeleteForward => {
                if !self.delete_selection(text) && self.cursor < len {
                    let start: usize = self.cursor;
                    self.delete_range(text, start, start + 1);
                }
            },
            TextInputAction::KillBeginning => {
                let end: usize = self.cursor;
                return non_empty(self.take_range(text, 0, end));
            },
            TextInputAction::KillEnd => {
                let (start, end) = self.selection_or(text.as_str(), self.cursor, len);
                return non_empty(self.take_range(text, start, end));
            },
            TextInputAction::KillBackwardWord => {
                let chars = chars_of(text.as_str());
                let from: usize = backward_word_start(chars.as_slice(), self.cursor);
                let (start, end) = self.selection_or(text.as_str(), from, self.cursor);
                return non_empty(self.take_range(text, start, end));
            },
            TextInputAction::KillSexp => {
                let chars = chars_of(text.as_str());
                let to: usize = forward_sexp_end(chars.as_slice(), self.cursor);
                let (start, end) = self.selection_or(text.as_str(), self.cursor, to);
                return non_empty(self.take_range(text, start, end));
            },
            TextInputAction::UnwrapSelection => {
                if let Some((start, end)) = self.selection_range(text.as_str()) {
                    if end - start >= 2 {
                        self.delete_range(text, end - 1, end);
                        self.delete_range(text, start, start + 1);
                        self.mark = if end > start + 2 {
                            Some(end - 2)
                        } else {
                            None
                        };
                    }
                }
            },
            TextInputAction::ShrinkSelection => {
                if let Some((start, end)) = self.selection_range(text.as_str()) {
                    if end - start >= 2 {
                        if self.cursor == start {
                            self.cursor = start + 1;
                            self.mark = Some(end - 1);
                        } else {
                            self.cursor = end - 1;
                            self.mark = Some(start + 1);
                        }
                    }
                }
            },
            TextInputAction::SelectAll => {
                self.mark = Some(0);
                self.cursor = len;
            },
            TextInputAction::Yank => self.insert_str(text, yank),
        }
        None
    }

    /// The field that a normalized state holds.
    spec fn as_field(&self) -> Field {
        Field { text: self.observed@, cursor: self.cursor as int, mark: opt_int(self.mark) }
    }

    fn normalize(&mut self, text: &str)
        ensures
            final(self).holds(old(self).field(text@)),
    {
        let len: usize = text.unicode_len();
        if !same_text(self.observed.as_str(), text) {
            self.cursor = len;
            self.mark = None;
            self.observed = text.to_owned();
        } else {
            if self.cursor > len {
                self.cursor = len;
            }
            if let Some(mark) = self.mark {
                if mark > len {
                    self.mark = Some(len);
                }
            }
        }
    }

    fn set_cursor(&mut self, cursor: usize)
        ensures
            *final(self) == (TextInputState { cursor, ..*old(self) }),
    {
        self.cursor = cursor;
    }

    /// The selected range of `text`.
    pub fn selection_range(&self, text: &str) -> (r: Option<(usize, usize)>)
        ensures
            r is Some <==> self.mark is Some && clamp_to(self.mark->0 as int, text@.len())
                != self.cursor,
            r matches Some((start, end)) ==> Some((start as int, end as int)) == (Field {
                text: text@,
                cursor: self.cursor as int,
                mark: Some(clamp_to(self.mark->0 as int, text@.len())),
            }).selection(),
    {
        match self.mark {
            Some(m) => {
                let len: usize = text.unicode_len();
                let mark: usize = if m < len {
                    m
                } else {
                    len
                };
                if mark < self.cursor {
                    Some((mark, self.cursor))
                } else if self.cursor < mark {
                    Some((self.cursor, mark))
                } else {
                    None
                }
            },
            None => None,
        }
    }

    fn selection_or(&self, text: &str, start: usize, end: usize) -> (r: (usize, usize))
        requires
            self.as_field().wf(),
            self.observed@ == text@,
        ensures
            match self.as_field().selection() {
                Some((s, e)) => r.0 == s && r.1 == e,
                None => r == (start, end),
            },
    {
        match self.selection_range(text) {
            Some(range) => range,
            None => (start, end),
        }
    }

    fn delete_selection(&mut self, text: &mut String) -> (r: bool)
        requires
            old(self).as_field().wf(),
            old(self).observed@ == old(text)@,
        ensures
            final(self).holds(old(self).as_field().without_selection()),
            final(text)@ == final(self).observed@,
            r == (old(self).as_field().selection() is Some),
    {
        match self.selection_range(text.as_str()) {
            Some((start, end)) => {
                self.delete_range(text, start, end);
                true
            },
            None => {
                self.mark = None;
                false
            },
        }
    }

    fn delete_range(&mut self, text: &mut String, start: usize, end: usize)
        requires
            start <= end <= old(text)@.len(),
            old(self).observed@ == old(text)@,
        ensures
            final(self).holds(old(self).as_field().without(start as int, end as int)),
            final(text)@ == final(self).observed@,
    {
        let (rest, _) = cut(text.as_str(), start, end);
        *text = rest;
        self.cursor = start;
        self.mark = None;
        self.observed = text.clone();
    }

    fn take_range(&mut self, text: &mut String, start: usize, end: usize) -> (r: String)
        requires
            start <= end <= old(text)@.len(),
            old(self).observed@ == old(text)@,
        ensures
            final(self).holds(old(self).as_field().without(start as int, end as int)),
            final(text)@ == final(self).observed@,
            r@ == old(text)@.subrange(start as int, end as int),
    {
        let (_, killed) = cut(text.as_str(), start, end);
        self.delete_range(text, start, end);
        killed
    }
}

proof fn lemma_run_end(chars: Seq<char>, i: int, word: bool)
    requires
        i <= chars.len(),
    ensures
        i <= run_end(chars, i, word) <= chars.len(),
    decreases chars.len() - i,
{
    if i < chars.len() && word_char(chars[i]) == word {
        lemma_run_end(chars, i + 1, word);
    }
}

proof fn lemma_run_start(chars: Seq<char>, i: int, word: bool)
    requires
        0 <= i,
    ensures
        0 <= run_start(chars, i, word) <= i,
    decreases i,
{
    if 0 < i && word_char(chars[i - 1]) == word {
        lemma_run_start(chars, i - 1, word);
    }
}

/// Word motions stay inside the text and move in their own direction.
pub proof fn word_motions_are_bounded(chars: Seq<char>, cursor: int)
    requires
        0 <= cursor <= chars.len(),
    ensures
        cursor <= word_end(chars, cursor) <= chars.len(),
        0 <= word_start(chars, cursor) <= cursor,
{
    lemma_run_end(chars, cursor, false);
    lemma_run_end(chars, run_end(chars, cursor, false), true);
    lemma_run_start(chars, cursor, false);
    lemma_run_start(chars, run_start(chars, cursor, false), true);
}

/// Whatever state meets whatever text, the field it stands for has its cursor and anchor inside
/// the text.
pub proof fn every_field_is_well_formed(state: TextInputState, text: Seq<char>)
    ensures
        state.field(text).wf(),
{
}

/// Every command keeps cursor and anchor inside the text.
#[verifier::spinoff_prover]
#[verifier::rlimit(40)]
pub proof fn commands_keep_fields_well_formed(f: Field, action: TextInputAction, yank: Seq<char>)
    requires
        f.wf(),
    ensures
        f.applied(action, yank).0.wf(),
{
    sexp_motions_are_bounded(f.text, f.cursor);
    word_motions_are_bounded(f.text, f.cursor);
}

/// The commands that only move the cursor or the selection.
pub open spec fn is_motion(action: TextInputAction) -> bool {
    match action {
        TextInputAction::MoveBeginning
        | TextInputAction::MoveEnd
        | TextInputAction::BackwardChar
        | TextInputAction::ForwardChar
        | TextInputAction::BackwardWord
        | TextInputAction::ForwardWord
        | TextInputAction::BackwardSexp
        | TextInputAction::ForwardSexp
        | TextInputAction::BackwardUpList
        | TextInputAction::DownList
        | TextInputAction::MarkSexp
        | TextInputAction::ShrinkSelection
        | TextInputAction::SelectAll => true,
        _ => false,
    }
}

/// Motions leave the text alone and kill nothing; those that are not about the selection keep its
/// anchor, so that moving extends an active selection.
pub proof fn motions_keep_the_text(f: Field, action: TextInputAction, yank: Seq<char>)
    requires
        is_motion(action),
    ensures
        f.applied(action, yank).0.text == f.text,
        f.applied(action, yank).1 is None,
        action !is MarkSexp && action !is ShrinkSelection && action !is SelectAll ==> f.applied(
            action,
            yank,
        ).0.mark == f.mark,
{
}

proof fn lemma_printable_all(s: Seq<char>)
    requires
        forall|i: int| 0 <= i < s.len() ==> !char_is_control(#[trigger] s[i]),
    ensures
        printable(s) == s,
    decreases s.len(),
{
    reveal(Seq::filter);
    if s.len() > 0 {
        assert forall|i: int| 0 <= i < s.drop_last().len() implies !char_is_control(
            #[trigger] s.drop_last()[i],
        ) by {
            assert(s.drop_last()[i] == s[i]);
        }
        lemma_printable_all(s.drop_last());
        assert(s.drop_last().push(s.last()) =~= s);
        assert(!char_is_control(s[s.len() - 1]));
    }
}

proof fn lemma_yank_after_kill(f: Field, start: int, end: int)
    requires
        0 <= start < end <= f.text.len(),
        forall|i: int|
            0 <= i < end - start ==> !char_is_control(#[trigger] f.text.subrange(start, end)[i]),
    ensures
        f.without(start, end).with_inserted(f.text.subrange(start, end)).text == f.text,
{
    let k = f.text.subrange(start, end);
    let after = f.without(start, end);
    lemma_printable_all(k);
    assert(after.without_selection() == after);
    assert(after.with_inserted(k).text =~= f.text);
}

/// Killed text comes back where it was when it is yanked at once, as long as it holds no control
/// characters (a yank leaves those out).
pub proof fn yank_restores_what_was_killed(f: Field, action: TextInputAction, yank: Seq<char>)
    requires
        f.wf(),
        f.applied(action, yank).1 matches Some(killed) && forall|i: int|
            0 <= i < killed.len() ==> !char_is_control(#[trigger] killed[i]),
    ensures
        ({
            let (after, killed) = f.applied(action, yank);
            after.applied(TextInputAction::Yank, killed->0).0.text == f.text
        }),
{
    sexp_motions_are_bounded(f.text, f.cursor);
    word_motions_are_bounded(f.text, f.cursor);
    let (start, end) = match (f.selection(), action) {
        (_, TextInputAction::KillBeginning) => (0, f.cursor),
        (Some(range), _) => range,
        (None, TextInputAction::KillEnd) => (f.cursor, f.text.len() as int),
        (None, TextInputAction::KillBackwardWord) => (word_start(f.text, f.cursor), f.cursor),
        (None, _) => (f.cursor, sexp_end(f.text, f.cursor)),
    };
    assert(f.applied(action, yank) == f.killed(start, end));
    lemma_yank_after_kill(f, start, end);
}

/// Inserting after selecting everything replaces the whole text.
pub proof fn select_all_replaces_on_insert(f: Field, yank: Seq<char>, s: Seq<char>)
    requires
        f.wf(),
    ensures
        f.applied(TextInputAction::SelectAll, yank).0.with_inserted(s).text == printable(s),
        f.applied(TextInputAction::SelectAll, yank).0.with_inserted(s).cursor == printable(s).len(),
{
    let all = f.applied(TextInputAction::SelectAll, yank).0;
    let g = all.without_selection();
    assert(g.text =~= Seq::empty());
    assert(all.with_inserted(s).text =~= printable(s));
}

/// Unwrapping removes the two ends of the selection and leaves what was between them selected.
pub proof fn unwrap_removes_the_ends(f: Field, yank: Seq<char>)
    requires
        f.wf(),
        f.selection() is Some,
        (f.selection()->0).1 - (f.selection()->0).0 >= 2,
    ensures
        ({
            let (start, end) = f.selection()->0;
            let g = f.applied(TextInputAction::UnwrapSelection, yank).0;
            &&& g.text == f.text.subrange(0, start) + f.text.subrange(start + 1, end - 1)
                + f.text.subrange(end, f.text.len() as int)
            &&& end - start > 2 ==> g.selection() == Some((start, end - 2))
            &&& end - start == 2 ==> g.selection() is None
        }),
{
    let (start, end) = f.selection()->0;
    let g = f.applied(TextInputAction::UnwrapSelection, yank).0;
    assert(g.text =~= f.text.subrange(0, start) + f.text.subrange(start + 1, end - 1)
        + f.text.subrange(end, f.text.len() as int));
}

} // verus!
