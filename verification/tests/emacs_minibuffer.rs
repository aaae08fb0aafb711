//! The minibuffer prompt.

use herdr::emacs::minibuffer::{MinibufferKind, MinibufferState};
use herdr::text_input::TextInputAction;

#[test]
fn editing_is_character_indexed() {
    let mut state = MinibufferState::command();
    state.insert_str("héllo");
    state.backward_char();
    state.delete_backward_char();
    state.insert_char('X');
    assert_eq!(state.input, "hélXo");
    assert_eq!(state.cursor(), 4);
}

#[test]
fn feedback_uses_a_plain_prompt() {
    let state = MinibufferState::feedback();
    assert_eq!(state.render_line(), "Feedback ");
    assert_eq!(state.kind, MinibufferKind::Feedback);
}

#[test]
fn backward_kill_word_peels_command_segments() {
    let mut state = MinibufferState::command();
    state.insert_str("split-window-right");
    state.backward_kill_word();
    assert_eq!(state.input, "split-window-");
    state.backward_kill_word();
    assert_eq!(state.input, "split-");
}

#[test]
fn shared_sexp_actions_edit_feedback_unicode_safely() {
    let mut state = MinibufferState::feedback();
    state.insert_str("(héllo [world]) tail");
    state.move_beginning_of_line();
    state.apply_text_action(TextInputAction::MarkSexp, "");
    let killed = state
        .apply_text_action(TextInputAction::KillSexp, "")
        .expect("marked sexp should be killed");
    assert_eq!(killed, "(héllo [world])");
    assert_eq!(state.input, " tail");
}

#[test]
fn line_commands_kill_on_their_side_of_the_cursor() {
    let mut state = MinibufferState::command();
    state.insert_str("one two");
    state.move_beginning_of_line();
    state.delete_forward_char();
    assert_eq!((state.input.as_str(), state.cursor()), ("ne two", 0));
    state.forward_word();
    assert_eq!(state.kill_line(), Some(" two".to_string()));
    assert_eq!(state.input, "ne");
    state.move_end_of_line();
    state.backward_char();
    assert_eq!(state.kill_beginning_of_line(), Some("n".to_string()));
    assert_eq!((state.input.as_str(), state.cursor()), ("e", 0));
    state.select_all();
    state.insert_char('x');
    assert_eq!(state.input, "x");
}

#[test]
fn a_copied_prompt_is_the_same_prompt() {
    let state = MinibufferState::feedback();
    assert_eq!(state.clone(), state);
}
