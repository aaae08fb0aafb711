//! What the editing commands of a text field do, each told by the text, the cursor and the selection
//! before and after it.

use crate::input::{KeyCode, KeyEvent, KeyModifiers};
use crate::sexp::{
    enclosing_before, entered_after, sexp_end, sexp_motions_are_bounded, sexp_start, word_char,
};
use crate::text::{char_is_alphanumeric, char_is_control};
use crate::text_input::{
    key_action, printable, run_end, run_start, word_motions_are_bounded, Field, TextInputAction,
    TextInputState,
};
use vstd::prelude::*;

verus! {

/// Letters, digits and underscores make words.
pub open spec fn in_word(c: char) -> bool {
    char_is_alphanumeric(c) || c == '_'
}

proof fn lemma_run_end_facts(chars: Seq<char>, i: int, word: bool)
    requires
        0 <= i <= chars.len(),
    ensures
        i <= run_end(chars, i, word) <= chars.len(),
        forall|k: int| i <= k < run_end(chars, i, word) ==> in_word(#[trigger] chars[k]) == word,
        run_end(chars, i, word) < chars.len() ==> in_word(chars[run_end(chars, i, word)]) != word,
    decreases chars.len() - i,
{
    if i < chars.len() && word_char(chars[i]) == word {
        lemma_run_end_facts(chars, i + 1, word);
    }
}

proof fn lemma_run_start_facts(chars: Seq<char>, i: int, word: bool)
    requires
        0 <= i <= chars.len(),
    ensures
        0 <= run_start(chars, i, word) <= i,
        forall|k: int| run_start(chars, i, word) <= k < i ==> in_word(#[trigger] chars[k]) == word,
        run_start(chars, i, word) > 0 ==> in_word(chars[run_start(chars, i, word) - 1]) != word,
    decreases i,
{
    if 0 < i && word_char(chars[i - 1]) == word {
        lemma_run_start_facts(chars, i - 1, word);
    }
}

/// Moving forward by a word ends behind the first word that reaches beyond the cursor: between the
/// cursor and there lie characters that make no word and then at least one that does, and no word
/// goes on there. Where no word follows, it ends at the end of the text.
pub proof fn forward_word_ends_a_word(f: Field, yank: Seq<char>)
    requires
        f.wf(),
    ensures
        ({
            let g = f.applied(TextInputAction::ForwardWord, yank).0;
            let e = g.cursor;
            let follows = exists|k: int| f.cursor <= k < f.text.len() && in_word(#[trigger] f.text[k]);
            &&& f.cursor <= e <= f.text.len()
            &&& e < f.text.len() ==> !in_word(f.text[e])
            &&& !follows ==> e == f.text.len()
            &&& follows ==> e > f.cursor && in_word(f.text[e - 1]) && exists|m: int| #[trigger]
                word_run(f.text, f.cursor, m, e)
            &&& g == (Field { cursor: e, ..f })
        }),
{
    let m = run_end(f.text, f.cursor, false);
    lemma_run_end_facts(f.text, f.cursor, false);
    lemma_run_end_facts(f.text, m, true);
    let e = run_end(f.text, m, true);
    if exists|k: int| f.cursor <= k < f.text.len() && in_word(#[trigger] f.text[k]) {
        let k = choose|k: int| f.cursor <= k < f.text.len() && in_word(#[trigger] f.text[k]);
        assert(m <= k);
        assert(in_word(f.text[m]));
        assert(word_run(f.text, f.cursor, m, e));
    } else if m < f.text.len() {
        assert(in_word(f.text[m]));
    }
}

/// From `a` to `m` no character makes a word; from `m` to `b` there is one at least, and all do.
pub open spec fn word_run(text: Seq<char>, a: int, m: int, b: int) -> bool {
    &&& a <= m < b <= text.len()
    &&& forall|k: int| a <= k < m ==> !in_word(#[trigger] text[k])
    &&& forall|k: int| m <= k < b ==> in_word(#[trigger] text[k])
}

/// From `b` to `m` all characters make a word, one at least; from `m` to `a` none does.
pub open spec fn word_run_back(text: Seq<char>, b: int, m: int, a: int) -> bool {
    &&& 0 <= b < m <= a
    &&& forall|k: int| b <= k < m ==> in_word(#[trigger] text[k])
    &&& forall|k: int| m <= k < a ==> !in_word(#[trigger] text[k])
}

/// Moving backward by a word is the same the other way round: it ends at the start of the last word
/// that begins before the cursor, or at the start of the text.
pub proof fn backward_word_begins_a_word(f: Field, yank: Seq<char>)
    requires
        f.wf(),
    ensures
        ({
            let g = f.applied(TextInputAction::BackwardWord, yank).0;
            let b = g.cursor;
            let precedes = exists|k: int| 0 <= k < f.cursor && in_word(#[trigger] f.text[k]);
            &&& 0 <= b <= f.cursor
            &&& b > 0 ==> !in_word(f.text[b - 1])
            &&& !precedes ==> b == 0
            &&& precedes ==> b < f.cursor && in_word(f.text[b]) && exists|m: int| #[trigger]
                word_run_back(f.text, b, m, f.cursor)
            &&& g == (Field { cursor: b, ..f })
        }),
{
    let m = run_start(f.text, f.cursor, false);
    lemma_run_start_facts(f.text, f.cursor, false);
    lemma_run_start_facts(f.text, m, true);
    let b = run_start(f.text, m, true);
    if exists|k: int| 0 <= k < f.cursor && in_word(#[trigger] f.text[k]) {
        let k = choose|k: int| 0 <= k < f.cursor && in_word(#[trigger] f.text[k]);
        assert(k < m);
        assert(in_word(f.text[m - 1]));
        assert(word_run_back(f.text, b, m, f.cursor));
    } else if m > 0 {
        assert(in_word(f.text[m - 1]));
    }
}

/// The motions by a character and to the ends move the cursor there and change nothing else.
pub proof fn plain_motions_move_the_cursor(f: Field, yank: Seq<char>)
    requires
        f.wf(),
    ensures
        f.applied(TextInputAction::MoveBeginning, yank).0 == (Field { cursor: 0, ..f }),
        f.applied(TextInputAction::MoveEnd, yank).0 == (Field {
            cursor: f.text.len() as int,
            ..f
        }),
        f.cursor < f.text.len() ==> f.applied(TextInputAction::ForwardChar, yank).0 == (Field {
            cursor: f.cursor + 1,
            ..f
        }),
        f.cursor == f.text.len() ==> f.applied(TextInputAction::ForwardChar, yank).0 == f,
        f.cursor > 0 ==> f.applied(TextInputAction::BackwardChar, yank).0 == (Field {
            cursor: f.cursor - 1,
            ..f
        }),
        f.cursor == 0 ==> f.applied(TextInputAction::BackwardChar, yank).0 == f,
{
}

/// The motions by expressions move the cursor where the balanced expressions of the text say, and
/// change nothing else.
pub proof fn expression_motions_follow_the_text(f: Field, yank: Seq<char>)
    requires
        f.wf(),
    ensures
        f.applied(TextInputAction::ForwardSexp, yank) == (
            Field { cursor: sexp_end(f.text, f.cursor), ..f },
            None::<Seq<char>>,
        ),
        f.applied(TextInputAction::BackwardSexp, yank) == (
            Field { cursor: sexp_start(f.text, f.cursor), ..f },
            None::<Seq<char>>,
        ),
        f.applied(TextInputAction::BackwardUpList, yank) == (
            Field { cursor: enclosing_before(f.text, f.cursor, f.cursor), ..f },
            None::<Seq<char>>,
        ),
        f.applied(TextInputAction::DownList, yank) == (
            Field { cursor: entered_after(f.text, f.cursor, f.cursor), ..f },
            None::<Seq<char>>,
        ),
{
}

/// A range is selected: it lies between the cursor and the anchor, whichever comes first.
pub open spec fn selects(f: Field, start: int, end: int) -> bool {
    &&& start < end
    &&& f.mark == Some(start) && f.cursor == end || f.mark == Some(end) && f.cursor == start
}

/// Nothing is selected: there is no anchor, or it is where the cursor is.
pub open spec fn selects_nothing(f: Field) -> bool {
    f.mark is None || f.mark == Some(f.cursor)
}

/// The text without a range.
pub open spec fn left_over(text: Seq<char>, start: int, end: int) -> Seq<char> {
    text.take(start) + text.skip(end)
}

/// Deleting, one way or the other, takes the selection out if there is one, and otherwise the
/// character before or behind the cursor if there is one. The cursor stands where the gap was, and
/// nothing is selected. Nothing is killed.
pub proof fn deleting_takes_out(f: Field, start: int, end: int, yank: Seq<char>)
    requires
        f.wf(),
    ensures
        ({
            let (back, back_killed) = f.applied(TextInputAction::DeleteBackward, yank);
            let (fore, fore_killed) = f.applied(TextInputAction::DeleteForward, yank);
            &&& back_killed is None && fore_killed is None
            &&& back.mark is None && fore.mark is None
            &&& selects(f, start, end) ==> back.text == left_over(f.text, start, end) && back.cursor
                == start && fore == back
            &&& selects_nothing(f) && f.cursor > 0 ==> back.text == left_over(
                f.text,
                f.cursor - 1,
                f.cursor,
            ) && back.cursor == f.cursor - 1
            &&& selects_nothing(f) && f.cursor == 0 ==> back.text == f.text && back.cursor == 0
            &&& selects_nothing(f) && f.cursor < f.text.len() ==> fore.text == left_over(
                f.text,
                f.cursor,
                f.cursor + 1,
            ) && fore.cursor == f.cursor
            &&& selects_nothing(f) && f.cursor == f.text.len() ==> fore.text == f.text
                && fore.cursor == f.cursor
        }),
{
    let back = f.applied(TextInputAction::DeleteBackward, yank).0;
    let fore = f.applied(TextInputAction::DeleteForward, yank).0;
    if selects(f, start, end) {
        assert(back.text =~= left_over(f.text, start, end));
    }
    if selects_nothing(f) && f.cursor > 0 {
        assert(back.text =~= left_over(f.text, f.cursor - 1, f.cursor));
    }
    if selects_nothing(f) && f.cursor < f.text.len() {
        assert(fore.text =~= left_over(f.text, f.cursor, f.cursor + 1));
    }
}

/// What a kill does to a range: it is taken out, the cursor stands where it was, nothing is selected,
/// and the text of the range is what was killed, unless it is empty.
pub open spec fn kills(f: Field, outcome: (Field, Option<Seq<char>>), start: int, end: int) -> bool {
    &&& outcome.0.text == left_over(f.text, start, end)
    &&& outcome.0.cursor == start
    &&& outcome.0.mark is None
    &&& outcome.1 == (if start < end {
        Some(f.text.subrange(start, end))
    } else {
        None
    })
}

/// Killing to the start kills all before the cursor. The other kills kill the selection if there is
/// one; otherwise all behind the cursor, the word before it (what moving backward by a word goes
/// over), or the expression behind it (what moving forward by an expression goes over).
pub proof fn kills_take_what_motions_cross(f: Field, start: int, end: int, yank: Seq<char>)
    requires
        f.wf(),
    ensures
        ({
            let to_start = f.applied(TextInputAction::KillBeginning, yank);
            let to_end = f.applied(TextInputAction::KillEnd, yank);
            let word = f.applied(TextInputAction::KillBackwardWord, yank);
            let sexp = f.applied(TextInputAction::KillSexp, yank);
            let word_start = f.applied(TextInputAction::BackwardWord, yank).0.cursor;
            let sexp_end = f.applied(TextInputAction::ForwardSexp, yank).0.cursor;
            &&& kills(f, to_start, 0, f.cursor)
            &&& selects(f, start, end) ==> kills(f, to_end, start, end) && kills(
                f,
                word,
                start,
                end,
            ) && kills(f, sexp, start, end)
            &&& selects_nothing(f) ==> kills(f, to_end, f.cursor, f.text.len() as int)
            &&& selects_nothing(f) ==> kills(f, word, word_start, f.cursor)
            &&& selects_nothing(f) ==> kills(f, sexp, f.cursor, sexp_end)
        }),
{
    sexp_motions_are_bounded(f.text, f.cursor);
    word_motions_are_bounded(f.text, f.cursor);
    let to_start = f.applied(TextInputAction::KillBeginning, yank).0;
    let to_end = f.applied(TextInputAction::KillEnd, yank).0;
    let word = f.applied(TextInputAction::KillBackwardWord, yank).0;
    let sexp = f.applied(TextInputAction::KillSexp, yank).0;
    let word_start = f.applied(TextInputAction::BackwardWord, yank).0.cursor;
    let sexp_end = f.applied(TextInputAction::ForwardSexp, yank).0.cursor;
    assert(to_start.text =~= left_over(f.text, 0, f.cursor));
    if selects(f, start, end) {
        assert(to_end.text =~= left_over(f.text, start, end));
        assert(word.text =~= left_over(f.text, start, end));
        assert(sexp.text =~= left_over(f.text, start, end));
    }
    if selects_nothing(f) {
        assert(to_end.text =~= left_over(f.text, f.cursor, f.text.len() as int));
        assert(word.text =~= left_over(f.text, word_start, f.cursor));
        assert(sexp.text =~= left_over(f.text, f.cursor, sexp_end));
    }
}

pub open spec fn is_printed() -> spec_fn(char) -> bool {
    |c: char| !(c as u32 <= 0x1f || 0x7f <= c as u32 <= 0x9f)
}

/// What is typed, pasted or yanked takes the place of the selection, or stands at the cursor, without
/// its control characters; the cursor stands behind it and nothing is selected.
pub proof fn insertions_replace_the_selection(f: Field, start: int, end: int, s: Seq<char>)
    requires
        f.wf(),
        selects(f, start, end) || (selects_nothing(f) && start == f.cursor && end == f.cursor),
    ensures
        ({
            let typed = f.with_inserted(s);
            let kept = s.filter(is_printed());
            &&& typed.text == f.text.take(start) + kept + f.text.skip(end)
            &&& typed.cursor == start + kept.len()
            &&& typed.mark is None
            &&& f.applied(TextInputAction::Yank, s) == (typed, None::<Seq<char>>)
        }),
{
    let kept = s.filter(is_printed());
    assert(is_printed() =~= (|c: char| !char_is_control(c)));
    assert(printable(s) == kept);
    assert(f.with_inserted(s).text =~= f.text.take(start) + kept + f.text.skip(end));
}

/// A character that is no control character is inserted as it is.
pub proof fn typed_characters_stay(f: Field, c: char)
    requires
        f.wf(),
        c as u32 > 0x1f,
        !(0x7f <= c as u32 <= 0x9f),
    ensures
        selects_nothing(f) ==> f.with_inserted(seq![c]).text == f.text.insert(f.cursor, c),
        selects_nothing(f) ==> f.with_inserted(seq![c]).cursor == f.cursor + 1,
{
    reveal(Seq::filter);
    assert(seq![c].drop_last() =~= Seq::<char>::empty());
    assert(printable(seq![c]) =~= seq![c]) by {
        assert(seq![c].last() == c);
        assert(Seq::<char>::empty().filter(|c: char| !char_is_control(c)) =~= Seq::<char>::empty());
    }
    if selects_nothing(f) {
        assert(f.with_inserted(seq![c]).text =~= f.text.insert(f.cursor, c));
    }
}

/// It does not matter which end of the selection is the cursor: exchanging cursor and anchor leaves
/// what every deletion, kill and insertion does as it was.
pub proof fn selections_have_no_direction(f: Field, m: int, s: Seq<char>)
    requires
        f.wf(),
        f.mark == Some(m),
        m != f.cursor,
    ensures
        ({
            let g = Field { cursor: m, mark: Some(f.cursor), ..f };
            &&& g.with_inserted(s) == f.with_inserted(s)
            &&& forall|action: TextInputAction|
                action is DeleteBackward || action is DeleteForward || action is KillEnd
                    || action is KillBackwardWord || action is KillSexp
                    || action is Yank ==> #[trigger] g.applied(action, s) == f.applied(
                    action,
                    s,
                )
        }),
{
}

/// Selecting everything, or the expression behind the cursor, changes only the selection; a selection
/// that is shrunk loses one character at each end and keeps its direction.
pub proof fn selections_are_set(f: Field, start: int, end: int, yank: Seq<char>)
    requires
        f.wf(),
    ensures
        ({
            let all = f.applied(TextInputAction::SelectAll, yank).0;
            let marked = f.applied(TextInputAction::MarkSexp, yank).0;
            let shrunk = f.applied(TextInputAction::ShrinkSelection, yank).0;
            let sexp_end = f.applied(TextInputAction::ForwardSexp, yank).0.cursor;
            &&& all.text == f.text
            &&& f.text.len() > 0 ==> selects(all, 0, f.text.len() as int) && all.cursor
                == f.text.len()
            &&& marked.text == f.text && marked.cursor == f.cursor
            &&& sexp_end != f.cursor ==> selects(marked, f.cursor, sexp_end)
            &&& sexp_end == f.cursor ==> selects_nothing(marked)
            &&& selects(f, start, end) && end - start >= 2 ==> shrunk.text == f.text
            &&& selects(f, start, end) && end - start > 2 ==> selects(shrunk, start + 1, end - 1)
                && (shrunk.cursor < shrunk.mark->0) == (f.cursor < f.mark->0)
            &&& selects(f, start, end) && end - start == 2 ==> selects_nothing(shrunk)
                && shrunk.cursor == start + 1
            &&& selects(f, start, end) && end - start < 2 ==> shrunk == f
            &&& selects_nothing(f) ==> shrunk == f
        }),
{
    sexp_motions_are_bounded(f.text, f.cursor);
}

/// A text that was replaced behind the field's back puts the cursor at its end and drops the
/// selection; a text that is the one last seen keeps both.
pub proof fn fields_follow_their_text(state: TextInputState, text: Seq<char>)
    ensures
        state.observed@ != text ==> state.field(text) == (Field {
            text,
            cursor: text.len() as int,
            mark: None,
        }),
        state.observed@ == text && state.cursor <= text.len() ==> state.field(text).cursor
            == state.cursor,
        state.observed@ == text && state.mark is None ==> state.field(text).mark is None,
        state.observed@ == text && state.mark is Some && state.mark->0 <= text.len()
            ==> state.field(text).mark == Some(state.mark->0 as int),
        state.field(text).text == text,
{
}

/// A key with control, alt or both held, or neither, and nothing else.
pub open spec fn held(code: KeyCode, control: bool, alt: bool) -> KeyEvent {
    KeyEvent {
        code,
        modifiers: KeyModifiers {
            shift: false,
            control,
            alt,
            super_key: false,
            hyper: false,
            meta: false,
        },
    }
}

/// The keys of a text field are those of Emacs.
pub proof fn editing_keys_are_those_of_emacs()
    ensures
        key_action(held(KeyCode::Char('a'), true, false)) == Some(TextInputAction::MoveBeginning),
        key_action(held(KeyCode::Char('e'), true, false)) == Some(TextInputAction::MoveEnd),
        key_action(held(KeyCode::Char('b'), true, false)) == Some(TextInputAction::BackwardChar),
        key_action(held(KeyCode::Char('f'), true, false)) == Some(TextInputAction::ForwardChar),
        key_action(held(KeyCode::Char('b'), false, true)) == Some(TextInputAction::BackwardWord),
        key_action(held(KeyCode::Char('f'), false, true)) == Some(TextInputAction::ForwardWord),
        key_action(held(KeyCode::Char('b'), true, true)) == Some(TextInputAction::BackwardSexp),
        key_action(held(KeyCode::Char('f'), true, true)) == Some(TextInputAction::ForwardSexp),
        key_action(held(KeyCode::Char('u'), true, true)) == Some(TextInputAction::BackwardUpList),
        key_action(held(KeyCode::Char('d'), true, true)) == Some(TextInputAction::DownList),
        key_action(held(KeyCode::Char(' '), true, true)) == Some(TextInputAction::MarkSexp),
        key_action(held(KeyCode::Char('@'), true, true)) == Some(TextInputAction::MarkSexp),
        key_action(held(KeyCode::Char('d'), true, false)) == Some(TextInputAction::DeleteForward),
        key_action(held(KeyCode::Char('u'), true, false)) == Some(TextInputAction::KillBeginning),
        key_action(held(KeyCode::Char('k'), true, false)) == Some(TextInputAction::KillEnd),
        key_action(held(KeyCode::Char('w'), true, false)) == Some(TextInputAction::KillBackwardWord),
        key_action(held(KeyCode::Char('h'), true, false)) == Some(TextInputAction::KillBackwardWord),
        key_action(held(KeyCode::Char('k'), true, true)) == Some(TextInputAction::KillSexp),
        key_action(held(KeyCode::Char('r'), true, true)) == Some(TextInputAction::ShrinkSelection),
        key_action(held(KeyCode::Char('h'), false, true)) == Some(TextInputAction::SelectAll),
        key_action(held(KeyCode::Char('y'), true, false)) == Some(TextInputAction::Yank),
        key_action(held(KeyCode::Backspace, false, false)) == Some(TextInputAction::DeleteBackward),
        key_action(held(KeyCode::Backspace, true, false)) == Some(TextInputAction::KillBackwardWord),
        key_action(held(KeyCode::Backspace, false, true)) == Some(TextInputAction::KillBackwardWord),
        key_action(held(KeyCode::Backspace, true, true)) == Some(TextInputAction::UnwrapSelection),
        key_action(held(KeyCode::Delete, false, false)) == Some(TextInputAction::DeleteForward),
{
}

/// Keys that type a character run no command, and neither do the keys that a dialog has for itself:
/// with control and alt, `n` and `p` stay free.
pub proof fn typing_keys_run_no_command(key: KeyEvent, c: char)
    ensures
        !key.modifiers.control && !key.modifiers.alt && key.code == KeyCode::Char(c) ==> key_action(
            key,
        ) is None,
        key_action(held(KeyCode::Char('n'), true, true)) is None,
        key_action(held(KeyCode::Char('p'), true, true)) is None,
        key.code is Enter || key.code is Esc || key.code is Up || key.code is Down || key.code is Tab
            ==> key_action(key) is None,
{
}

/// Unwrapping takes out the first and the last character of the selection and leaves what stood
/// between them selected, with the cursor before it; a selection without two ends stays.
pub proof fn unwrapping_takes_out_the_ends(f: Field, start: int, end: int, yank: Seq<char>)
    requires
        f.wf(),
    ensures
        ({
            let (after, killed) = f.applied(TextInputAction::UnwrapSelection, yank);
            &&& killed is None
            &&& selects(f, start, end) && end - start >= 2 ==> {
                &&& after.text == f.text.take(start) + f.text.subrange(start + 1, end - 1)
                    + f.text.skip(end)
                &&& after.cursor == start
            }
            &&& selects(f, start, end) && end - start > 2 ==> selects(after, start, end - 2)
            &&& selects(f, start, end) && end - start == 2 ==> after.mark is None
            &&& selects(f, start, end) && end - start < 2 ==> after == f
            &&& selects_nothing(f) ==> after == f
        }),
{
    if selects(f, start, end) && end - start >= 2 {
        assert(f.selection() == Some((start, end)));
        let after = f.applied(TextInputAction::UnwrapSelection, yank).0;
        assert(after.text =~= f.text.take(start) + f.text.subrange(start + 1, end - 1)
            + f.text.skip(end));
    }
}

} // verus!
