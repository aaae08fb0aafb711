//! Editing one line of text, and moving over balanced expressions.

use herdr::input::{KeyCode, KeyEvent, KeyModifiers};
use herdr::sexp::{backward_sexp_start, backward_up_list_start, down_list_start, forward_sexp_end};
use herdr::sexp::SexpSyntax;
use herdr::text_input::{action_for_key, TextInputAction, TextInputState};

#[test]
fn character_indexed_editing_and_word_motion_are_unicode_safe() {
    let mut text = "héllo world".to_string();
    let mut state = TextInputState::at_end(&text);

    state.apply(&mut text, TextInputAction::BackwardWord, "");
    state.apply(&mut text, TextInputAction::DeleteBackward, "");
    state.insert_str(&mut text, "—");

    assert_eq!(text, "héllo—world");
    assert_eq!(state.cursor(&text), 6);
}

#[test]
fn select_all_replaces_on_insert_and_kills_can_be_yanked() {
    let mut text = "old name".to_string();
    let mut state = TextInputState::at_end(&text);
    state.apply(&mut text, TextInputAction::SelectAll, "");
    state.insert_str(&mut text, "new");
    assert_eq!(text, "new");

    let killed = state
        .apply(&mut text, TextInputAction::KillBeginning, "")
        .expect("kill should return text");
    assert_eq!(killed, "new");
    state.apply(&mut text, TextInputAction::Yank, &killed);
    assert_eq!(text, "new");
}

#[test]
fn emacs_sexp_keys_map_without_claiming_reserved_list_navigation() {
    let control_meta = KeyModifiers::control_alt();
    assert_eq!(
        action_for_key(KeyEvent::new(KeyCode::Char('f'), control_meta)),
        Some(TextInputAction::ForwardSexp)
    );
    assert_eq!(
        action_for_key(KeyEvent::new(KeyCode::Char('b'), control_meta)),
        Some(TextInputAction::BackwardSexp)
    );
    assert_eq!(
        action_for_key(KeyEvent::new(KeyCode::Char(' '), control_meta)),
        Some(TextInputAction::MarkSexp)
    );
    assert_eq!(
        action_for_key(KeyEvent::new(KeyCode::Char('k'), control_meta)),
        Some(TextInputAction::KillSexp)
    );
    assert_eq!(
        action_for_key(KeyEvent::new(KeyCode::Char('u'), control_meta)),
        Some(TextInputAction::BackwardUpList)
    );
    assert_eq!(
        action_for_key(KeyEvent::new(KeyCode::Char('d'), control_meta)),
        Some(TextInputAction::DownList)
    );
    // These stay free for the previous and next workspace.
    assert_eq!(
        action_for_key(KeyEvent::new(KeyCode::Char('n'), control_meta)),
        None
    );
    assert_eq!(
        action_for_key(KeyEvent::new(KeyCode::Char('p'), control_meta)),
        None
    );
}

#[test]
fn sexp_motion_understands_balanced_nesting_strings_and_escapes() {
    let text = "call(α, [\"not ) \\\" yet\", {β: `x]`}]) tail";
    let chars = text.chars().collect::<Vec<_>>();

    assert_eq!(forward_sexp_end(&chars, 0), 4); // call
    let open = text
        .chars()
        .position(|ch| ch == '(')
        .expect("opening paren");
    let close = chars
        .iter()
        .rposition(|ch| *ch == ')')
        .expect("closing paren");
    assert_eq!(forward_sexp_end(&chars, open), close + 1);
    assert_eq!(backward_sexp_start(&chars, close + 1), open);
    assert_eq!(forward_sexp_end(&chars, close + 1), text.chars().count());
}

#[test]
fn apostrophes_inside_words_are_atoms_not_unclosed_strings() {
    let text = "don't stop 'quoted value' now";
    let chars = text.chars().collect::<Vec<_>>();
    assert_eq!(forward_sexp_end(&chars, 0), 5);

    let quoted = text
        .char_indices()
        .find_map(|(byte, _)| text[byte..].starts_with("'quoted").then_some(byte))
        .map(|byte| text[..byte].chars().count())
        .expect("opening quote");
    assert_eq!(
        chars[quoted..forward_sexp_end(&chars, quoted)]
            .iter()
            .collect::<String>(),
        "'quoted value'"
    );
}

#[test]
fn mark_sexp_selects_a_nested_expression_and_kill_uses_the_region() {
    let mut text = "(α [β]) tail".to_string();
    let mut state = TextInputState::at_end(&text);
    state.apply(&mut text, TextInputAction::MoveBeginning, "");
    state.apply(&mut text, TextInputAction::MarkSexp, "");

    assert_eq!(state.cursor(&text), 0);
    assert_eq!(state.selection_range(&text), Some((0, 7)));
    let killed = state
        .apply(&mut text, TextInputAction::KillSexp, "")
        .expect("selected sexp should be killed");
    assert_eq!(killed, "(α [β])");
    assert_eq!(text, " tail");
}

#[test]
fn ordinary_motion_extends_an_active_mark_like_emacs() {
    let mut text = "one two".to_string();
    let mut state = TextInputState::at_end(&text);
    state.apply(&mut text, TextInputAction::SelectAll, "");
    assert_eq!(state.selection_range(&text), Some((0, 7)));

    state.apply(&mut text, TextInputAction::BackwardSexp, "");
    assert_eq!(state.selection_range(&text), Some((0, 4)));
}

#[test]
fn personal_region_commands_shrink_and_unwrap_unicode_safely() {
    let mut text = "(héllo)".to_string();
    let mut state = TextInputState::at_end(&text);
    state.apply(&mut text, TextInputAction::MoveBeginning, "");
    state.apply(&mut text, TextInputAction::MarkSexp, "");
    state.apply(&mut text, TextInputAction::ShrinkSelection, "");
    assert_eq!(state.selection_range(&text), Some((1, 6)));

    // Mark the complete expression again: unwrapping removes the region's ends.
    state.apply(&mut text, TextInputAction::SelectAll, "");
    state.apply(&mut text, TextInputAction::UnwrapSelection, "");
    assert_eq!(text, "héllo");
    assert_eq!(state.selection_range(&text), Some((0, 5)));
}

#[test]
fn list_motion_enters_and_leaves_the_innermost_containing_list() {
    let mut text = "before (outer [inner]) after".to_string();
    let mut state = TextInputState::at_end(&text);
    state.apply(&mut text, TextInputAction::MoveBeginning, "");
    state.apply(&mut text, TextInputAction::DownList, "");
    let outer_inside = "before (".chars().count();
    assert_eq!(state.cursor(&text), outer_inside);

    state.apply(&mut text, TextInputAction::DownList, "");
    let inner_inside = "before (outer [".chars().count();
    assert_eq!(state.cursor(&text), inner_inside);
    state.apply(&mut text, TextInputAction::BackwardUpList, "");
    assert_eq!(state.cursor(&text), inner_inside - 1);
    state.apply(&mut text, TextInputAction::BackwardUpList, "");
    assert_eq!(state.cursor(&text), outer_inside - 1);
}

#[test]
fn list_motion_ignores_delimiters_inside_strings() {
    let text = "prefix \"not (a list)\" then [real]";
    let chars = text.chars().collect::<Vec<_>>();
    let real_open = chars.iter().position(|ch| *ch == '[').expect("real list");
    assert_eq!(down_list_start(&chars, 0), real_open + 1);

    let quoted_open = chars
        .iter()
        .position(|ch| *ch == '(')
        .expect("quoted paren");
    assert_eq!(
        backward_up_list_start(&chars, quoted_open + 2),
        quoted_open + 2,
        "a delimiter in a string is not a containing list"
    );
}

#[test]
fn sexp_motion_from_inside_a_string_moves_across_the_whole_string() {
    let text = "before \"héllo \\\"world\\\"\" after";
    let chars = text.chars().collect::<Vec<_>>();
    let start = chars.iter().position(|ch| *ch == '"').expect("start quote");
    let end = chars.iter().rposition(|ch| *ch == '"').expect("end quote") + 1;
    let inside = start + 3;
    assert_eq!(forward_sexp_end(&chars, inside), end);
    assert_eq!(backward_sexp_start(&chars, inside), start);
}

#[test]
fn unfinished_delimiter_motion_remains_useful() {
    let text = "run(α, [β";
    let chars = text.chars().collect::<Vec<_>>();
    let open = text
        .chars()
        .position(|ch| ch == '(')
        .expect("opening paren");
    assert_eq!(forward_sexp_end(&chars, open), chars.len());
    assert_eq!(backward_up_list_start(&chars, chars.len()), 7);
}

#[test]
fn cursor_is_shown_as_a_block() {
    let mut text = "h\u{e9}".to_string();
    assert_eq!(TextInputState::default().with_cursor(&text), "\u{2588}h\u{e9}");
    let mut field = TextInputState::at_end(&text);
    assert_eq!(field.with_cursor(&text), "h\u{e9}\u{2588}");
    field.apply(&mut text, TextInputAction::BackwardChar, "");
    assert_eq!(field.with_cursor(&text), "h\u{2588}\u{e9}");
}

#[test]
fn tables_pair_ends_and_skip_brackets_in_strings() {
    let chars: Vec<char> = "(a \"(\" [b])".chars().collect();
    let tables = SexpSyntax::parse(&chars);
    assert_eq!(tables.pairs[0], Some(10));
    assert_eq!(tables.pairs[10], Some(0));
    assert_eq!(tables.pairs[3], Some(5));
    assert_eq!(tables.pairs[4], None);
    assert!(!tables.structural_delimiter[4]);
    assert_eq!(tables.string_bounds[4], Some((3, 6)));
    assert_eq!(tables.pairs[7], Some(9));
}
