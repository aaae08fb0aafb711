//! The one-line minibuffer for `M-x` and feedback prompts.

use crate::text_input::{Field, TextInputAction, TextInputState};
use vstd::prelude::*;

verus! {

/// What a prompt is for.
#[derive(Debug, Clone, Copy, PartialEq, Eq, Structural)]
pub enum MinibufferKind {
    ExecuteCommand,
    Feedback,
}

/// An open prompt.
#[derive(Debug, PartialEq, Eq)]
pub struct MinibufferState {
    pub prompt: String,
    pub input: String,
    pub editing: TextInputState,
    pub kind: MinibufferKind,
}

impl Clone for MinibufferState {
    fn clone(&self) -> (r: Self)
        ensures
            r == *self,
    {
        MinibufferState {
            prompt: self.prompt.clone(),
            input: self.input.clone(),
            editing: self.editing.clone(),
            kind: self.kind,
        }
    }
}

impl MinibufferState {
    /// The input as a field: its text, the cursor and the selection.
    pub open spec fn field(&self) -> Field {
        self.editing.field(self.input@)
    }

    /// `self` is `before` with its input field turned into `f`.
    pub open spec fn edited(&self, before: &Self, f: Field) -> bool {
        &&& self.prompt == before.prompt
        &&& self.kind == before.kind
        &&& self.input@ == f.text
        &&& self.editing.holds(f)
    }

    /// An empty prompt for a command name.
    pub fn command() -> (r: Self)
        ensures
            r.prompt@ == "M-x "@,
            r.kind is ExecuteCommand,
            r.input@ == Seq::<char>::empty(),
            r.field() == (Field { text: Seq::empty(), cursor: 0, mark: None }),
    {
        Self::new("M-x ", MinibufferKind::ExecuteCommand)
    }

    /// An empty prompt for feedback.
    pub fn feedback() -> (r: Self)
        ensures
            r.prompt@ == "Feedback "@,
            r.kind is Feedback,
            r.input@ == Seq::<char>::empty(),
            r.field() == (Field { text: Seq::empty(), cursor: 0, mark: None }),
    {
        Self::new("Feedback ", MinibufferKind::Feedback)
    }

    fn new(prompt: &str, kind: MinibufferKind) -> (r: Self)
        ensures
            r.prompt@ == prompt@,
            r.kind == kind,
            r.input@ == Seq::<char>::empty(),
            r.field() == (Field { text: Seq::empty(), cursor: 0, mark: None }),
    {
        MinibufferState {
            prompt: prompt.to_owned(),
            input: String::new(),
            editing: TextInputState::default(),
            kind,
        }
    }

    /// The cursor as a character index in the input.
    pub fn cursor(&self) -> (r: usize)
        ensures
            r == crate::text_input::clamp_to(self.editing.cursor as int, self.input@.len()),
            self.editing.observed@ == self.input@ ==> r == self.field().cursor,
    {
        self.editing.cursor(self.input.as_str())
    }

    pub fn insert_char(&mut self, c: char)
        ensures
            final(self).edited(old(self), old(self).field().with_inserted(seq![c])),
    {
        let mut text = String::new();
        text.push(c);
        assert(text@ =~= seq![c]);
        self.editing.insert_str(&mut self.input, text.as_str());
    }

    pub fn insert_str(&mut self, text: &str)
        ensures
            final(self).edited(old(self), old(self).field().with_inserted(text@)),
    {
        self.editing.insert_str(&mut self.input, text);
    }

    /// Runs an editing command of text fields on the input.
    pub fn apply_text_action(&mut self, action: TextInputAction, yank: &str) -> (r: Option<String>)
        ensures
            final(self).edited(old(self), old(self).field().applied(action, yank@).0),
            match (r, old(self).field().applied(action, yank@).1) {
                (Some(killed), Some(k)) => killed@ == k,
                (None, None) => true,
                _ => false,
            },
    {
        self.editing.apply(&mut self.input, action, yank)
    }

    pub fn delete_backward_char(&mut self)
        ensures
            final(self).edited(
                old(self),
                old(self).field().applied(TextInputAction::DeleteBackward, ""@).0,
            ),
    {
        self.apply_text_action(TextInputAction::DeleteBackward, "");
    }

    pub fn delete_forward_char(&mut self)
        ensures
            final(self).edited(
                old(self),
                old(self).field().applied(TextInputAction::DeleteForward, ""@).0,
            ),
    {
        self.apply_text_action(TextInputAction::DeleteForward, "");
    }

    pub fn kill_line(&mut self) -> (r: Option<String>)
        ensures
            final(self).edited(
                old(self),
                old(self).field().applied(TextInputAction::KillEnd, ""@).0,
            ),
            match (r, old(self).field().applied(TextInputAction::KillEnd, ""@).1) {
                (Some(killed), Some(k)) => killed@ == k,
                (None, None) => true,
                _ => false,
            },
    {
        self.apply_text_action(TextInputAction::KillEnd, "")
    }

    pub fn kill_beginning_of_line(&mut self) -> (r: Option<String>)
        ensures
            final(self).edited(
                old(self),
                old(self).field().applied(TextInputAction::KillBeginning, ""@).0,
            ),
            match (r, old(self).field().applied(TextInputAction::KillBeginning, ""@).1) {
                (Some(killed), Some(k)) => killed@ == k,
                (None, None) => true,
                _ => false,
            },
    {
        self.apply_text_action(TextInputAction::KillBeginning, "")
    }

    pub fn backward_kill_word(&mut self) -> (r: Option<String>)
        ensures
            final(self).edited(
                old(self),
                old(self).field().applied(TextInputAction::KillBackwardWord, ""@).0,
            ),
            match (r, old(self).field().applied(TextInputAction::KillBackwardWord, ""@).1) {
                (Some(killed), Some(k)) => killed@ == k,
                (None, None) => true,
                _ => false,
            },
    {
        self.apply_text_action(TextInputAction::KillBackwardWord, "")
    }

    pub fn move_beginning_of_line(&mut self)
        ensures
            final(self).edited(
                old(self),
                old(self).field().applied(TextInputAction::MoveBeginning, ""@).0,
            ),
    {
        self.apply_text_action(TextInputAction::MoveBeginning, "");
    }

    pub fn move_end_of_line(&mut self)
        ensures
            final(self).edited(
                old(self),
                old(self).field().applied(TextInputAction::MoveEnd, ""@).0,
            ),
    {
        self.apply_text_action(TextInputAction::MoveEnd, "");
    }

    pub fn forward_char(&mut self)
        ensures
            final(self).edited(
                old(self),
                old(self).field().applied(TextInputAction::ForwardChar, ""@).0,
            ),
    {
        self.apply_text_action(TextInputAction::ForwardChar, "");
    }

    pub fn backward_char(&mut self)
        ensures
            final(self).edited(
                old(self),
                old(self).field().applied(TextInputAction::BackwardChar, ""@).0,
            ),
    {
        self.apply_text_action(TextInputAction::BackwardChar, "");
    }

    pub fn forward_word(&mut self)
        ensures
            final(self).edited(
                old(self),
                old(self).field().applied(TextInputAction::ForwardWord, ""@).0,
            ),
    {
        self.apply_text_action(TextInputAction::ForwardWord, "");
    }

    pub fn backward_word(&mut self)
        ensures
            final(self).edited(
                old(self),
                old(self).field().applied(TextInputAction::BackwardWord, ""@).0,
            ),
    {
        self.apply_text_action(TextInputAction::BackwardWord, "");
    }

    pub fn select_all(&mut self)
        ensures
            final(self).edited(
                old(self),
                old(self).field().applied(TextInputAction::SelectAll, ""@).0,
            ),
    {
        self.apply_text_action(TextInputAction::SelectAll, "");
    }

    /// The prompt and the input behind it.
    pub fn render_line(&self) -> (r: String)
        ensures
            r@ == self.prompt@ + self.input@,
    {
        let mut out = self.prompt.clone();
        out.append(self.input.as_str());
        out
    }
}

} // verus!
