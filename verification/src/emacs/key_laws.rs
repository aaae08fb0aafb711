//! What the Emacs keys do over terminal panes: motions, the region, kills and yanks, and the keys that
//! lead to them.

use crate::emacs::commands::{EmacsBuiltin, EmacsCommand, NavigateAction};
use crate::emacs::dispatch::{
    marked, pane_from, typed, Effect, PaneArea, PaneRuntime, PaneView,
    ScrollMetrics, Surroundings,
};
use crate::emacs::keymap::{canonical, sequence_name, stack_looked_up, Chord, Lookup};
use crate::emacs::rings::Mark;
use crate::emacs::state::{Layer, Session};
use crate::emacs::text_mode::{
    buffer_beginning, char_after, char_before, clamped, end_of, final_row, inside, row_len,
    skipped_back, skipped_on, word_at, word_end_after, word_start_before, Pos, TextBuffer,
};
use crate::input::{KeyCode, TerminalKey};
use crate::text::{char_is_alphanumeric, parsed_unsigned};
use vstd::prelude::*;
use vstd::utf8::encode_utf8;

verus! {

/// A position comes before another in the order of reading: in a row above it, or in its row to the
/// left of it.
pub open spec fn earlier(a: Pos, b: Pos) -> bool {
    a.row < b.row || (a.row == b.row && a.col < b.col)
}

/// Text mode is on in the focused pane, which runs a terminal.
pub open spec fn reading<B>(
    layer: Layer,
    env: Surroundings<B>,
    text: Session,
    runtime: PaneRuntime<B>,
) -> bool {
    &&& layer.text == Some(text)
    &&& env.focused == Some(text.pane_id)
    &&& env.pane(text.pane_id) is Some
    &&& env.pane(text.pane_id)->0.runtime == Some(runtime)
}

/// A pane is looked up by its id: the first with it.
pub proof fn panes_are_found_by_their_id<B>(env: Surroundings<B>, id: u64, k: int)
    ensures
        (forall|i: int| 0 <= i < env.panes@.len() ==> (#[trigger] env.panes@[i]).pane_id != id)
            ==> env.pane(id) is None,
        0 <= k < env.panes@.len() && env.panes@[k].pane_id == id && (forall|i: int|
            0 <= i < k ==> (#[trigger] env.panes@[i]).pane_id != id) ==> env.pane(id) == Some(
            env.panes@[k],
        ),
{
    lemma_pane_from(env.panes@, 0, id, k);
}

proof fn lemma_pane_from<B>(panes: Seq<PaneView<B>>, i: int, id: u64, k: int)
    requires
        0 <= i <= panes.len(),
    ensures
        (forall|j: int| i <= j < panes.len() ==> (#[trigger] panes[j]).pane_id != id) ==> pane_from(
            panes,
            i,
            id,
        ) is None,
        i <= k < panes.len() && panes[k].pane_id == id && (forall|j: int|
            i <= j < k ==> (#[trigger] panes[j]).pane_id != id) ==> pane_from(panes, i, id) == Some(
            panes[k],
        ),
    decreases panes.len() - i,
{
    if i < panes.len() && panes[i].pane_id != id {
        lemma_pane_from(panes, i + 1, id, k);
    }
}

/// The last position before another, in a terminal of some columns: the one to its left, or the last
/// of the row above.
pub open spec fn just_before(pos: Pos, cols: u16) -> Pos {
    if pos.col > 0 {
        Pos { row: pos.row, col: (pos.col - 1) as u16 }
    } else if cols > 0 {
        Pos { row: (pos.row - 1) as u32, col: (cols - 1) as u16 }
    } else {
        Pos { row: (pos.row - 1) as u32, col: 0 }
    }
}

/// Saving the region reads what lies between mark and point, whichever of them comes first: from the
/// earlier one to just before the later one. Nothing else changes until it was read. Killing the
/// region does the same, since the text cannot be changed.
pub proof fn regions_are_read_from_end_to_end<B: TextBuffer>(
    layer: Layer,
    env: Surroundings<B>,
    text: Session,
    runtime: PaneRuntime<B>,
    mark: Pos,
    cols: u16,
)
    requires
        reading(layer, env, text, runtime),
        text.mark_active,
        text.mark == Some(mark),
        mark != text.point,
        runtime.columns == Some(cols),
    ensures
        ({
            let (saved, effect) = layer.ran(&env, EmacsBuiltin::KillRingSave);
            let (first, last) = if earlier(mark, text.point) {
                (mark, text.point)
            } else {
                (text.point, mark)
            };
            &&& saved == layer
            &&& effect == (Effect::ReadRegion {
                pane_id: text.pane_id,
                start: first,
                end: just_before(last, cols),
            })
            &&& layer.ran(&env, EmacsBuiltin::KillRegion) == (saved, effect)
        }),
{
}

/// Which end of the region is the mark does not matter: exchanging mark and point leaves what saving
/// the region reads as it was.
pub proof fn regions_have_no_direction<B: TextBuffer>(
    layer: Layer,
    env: Surroundings<B>,
    text: Session,
    runtime: PaneRuntime<B>,
    mark: Pos,
)
    requires
        reading(layer, env, text, runtime),
        text.mark_active,
        text.mark == Some(mark),
    ensures
        ({
            let swapped = layer.ran(&env, EmacsBuiltin::ExchangePointAndMark).0;
            &&& swapped.text->0.point == mark
            &&& swapped.text->0.mark == Some(text.point)
            &&& swapped.ran(&env, EmacsBuiltin::KillRingSave).1 == layer.ran(
                &env,
                EmacsBuiltin::KillRingSave,
            ).1
        }),
{
}

/// A region that is not there is not read, and the echo area says why: the mark is not active, or mark
/// and point are at one place.
pub proof fn missing_regions_are_reported<B: TextBuffer>(
    layer: Layer,
    env: Surroundings<B>,
    text: Session,
    runtime: PaneRuntime<B>,
)
    requires
        reading(layer, env, text, runtime),
    ensures
        !text.mark_active ==> layer.ran(&env, EmacsBuiltin::KillRingSave) == (
            Layer { echo: Some("The mark is not active now"@), ..layer },
            Effect::Nothing,
        ),
        text.mark_active && text.mark == Some(text.point) ==> layer.ran(
            &env,
            EmacsBuiltin::KillRingSave,
        ) == (Layer { echo: Some("Empty region"@), ..layer }, Effect::Nothing),
{
}

/// What was read of a region becomes the newest kill, the mark is no longer active, and the text goes
/// to the clipboard where the two are kept in step. The older kills stay in their order, as far as the
/// ring reaches; an empty text, or the newest kill once more, leaves the ring as it is.
pub proof fn read_regions_are_killed(layer: Layer, content: Seq<char>)
    requires
        layer.kill_ring_max >= 1,
    ensures
        ({
            let (after, clip) = layer.region_killed(Some(content));
            let again = layer.kills.len() > 0 && layer.kills[0] == content;
            &&& clip == (if layer.clipboard_sync {
                Some(content)
            } else {
                None
            })
            &&& content.len() > 0 && !again ==> {
                &&& after.kills.len() > 0 && after.kills[0] == content
                &&& after.kills.len() == (if layer.kills.len() + 1 < layer.kill_ring_max {
                    layer.kills.len() + 1
                } else {
                    layer.kill_ring_max as nat
                })
                &&& forall|i: int|
                    0 < i < after.kills.len() ==> #[trigger] after.kills[i] == layer.kills[i - 1]
            }
            &&& content.len() == 0 || again ==> after.kills == layer.kills
            &&& after.yank_index == 0
            &&& layer.text matches Some(text) ==> after.text == Some(
                Session { mark_active: false, ..text },
            )
            &&& after == (Layer {
                kills: after.kills,
                yank_index: 0,
                text: after.text,
                ..layer
            })
        }),
        layer.region_killed(None) == (
            Layer { echo: Some("Empty region"@), ..layer },
            None::<Seq<char>>,
        ),
{
}

/// The mark is set at the point and is active, the echo area says so, and the pane's ring of marks has
/// it in front. The rings of other panes stay.
pub proof fn marks_are_set_at_the_point<B: TextBuffer>(
    layer: Layer,
    env: Surroundings<B>,
    text: Session,
)
    requires
        layer.text == Some(text),
        layer.mark_ring_max >= 1,
        forall|i: int| 0 <= i < layer.marks.len() ==> (#[trigger] layer.marks[i]).2 >= 1,
    ensures
        ({
            let (after, effect) = layer.ran(&env, EmacsBuiltin::SetMark);
            let here: Mark = (text.point.row, text.point.col);
            &&& effect is Nothing
            &&& after.text == Some(Session { mark: Some(text.point), mark_active: true, ..text })
            &&& after.echo == Some("Mark set"@)
            &&& exists|i: int|
                0 <= i < after.marks.len() && (#[trigger] after.marks[i]).0 == text.pane_id
                    && after.marks[i].1.len() > 0 && after.marks[i].1[0] == here
            &&& forall|i: int|
                0 <= i < layer.marks.len() && (#[trigger] layer.marks[i]).0 != text.pane_id ==> i
                    < after.marks.len() && after.marks[i] == layer.marks[i]
        }),
{
    let here: Mark = (text.point.row, text.point.col);
    let after = layer.ran(&env, EmacsBuiltin::SetMark).0;
    lemma_marked(layer.marks, 0, text.pane_id, here, layer.mark_ring_max);
    assert(after.marks == marked(layer.marks, 0, text.pane_id, here, layer.mark_ring_max));
    let k = choose|k: int|
        0 <= k < after.marks.len() && (#[trigger] after.marks[k]).0 == text.pane_id
            && after.marks[k].1.len() > 0 && after.marks[k].1[0] == here;
    assert(after.marks[k].0 == text.pane_id);
}

proof fn lemma_marked(
    marks: Seq<(u64, Seq<Mark>, usize)>,
    i: int,
    pane_id: u64,
    mark: Mark,
    max: usize,
)
    requires
        0 <= i <= marks.len(),
        max >= 1,
        forall|k: int| 0 <= k < marks.len() ==> (#[trigger] marks[k]).2 >= 1,
    ensures
        ({
            let after = marked(marks, i, pane_id, mark, max);
            &&& exists|k: int|
                0 <= k < after.len() && (#[trigger] after[k]).0 == pane_id && after[k].1.len() > 0
                    && after[k].1[0] == mark
            &&& forall|k: int|
                0 <= k < marks.len() && (#[trigger] marks[k]).0 != pane_id ==> k < after.len()
                    && after[k] == marks[k]
        }),
    decreases marks.len() - i,
{
    let after = marked(marks, i, pane_id, mark, max);
    if i >= marks.len() {
        assert(after[marks.len() as int].1[0] == mark);
    } else if marks[i].0 == pane_id {
        assert(after[i].1[0] == mark);
    } else {
        lemma_marked(marks, i + 1, pane_id, mark, max);
    }
}

/// Point and mark change places, and the region is active; without a mark the echo area says so.
pub proof fn point_and_mark_change_places<B: TextBuffer>(
    layer: Layer,
    env: Surroundings<B>,
    text: Session,
)
    requires
        layer.text == Some(text),
    ensures
        text.mark matches Some(mark) ==> layer.ran(&env, EmacsBuiltin::ExchangePointAndMark).0 == (
        Layer {
            text: Some(
                Session { point: mark, mark: Some(text.point), mark_active: true, ..text },
            ),
            ..layer
        }),
        text.mark is None ==> layer.ran(&env, EmacsBuiltin::ExchangePointAndMark) == (
            Layer { echo: Some("No mark set in this buffer"@), ..layer },
            Effect::Nothing,
        ),
{
}

/// The columns of a row in which the point can stand: one for each character, and one behind the last,
/// as far as columns are counted.
pub open spec fn columns_of<B: TextBuffer>(buf: B, row: u32) -> int {
    if buf.text(row).len() < 65535 {
        buf.text(row).len() as int
    } else {
        65535
    }
}

/// A place of the buffer.
pub open spec fn is_place<B: TextBuffer>(buf: B, pos: Pos) -> bool {
    buf.rows() > 0 && pos.row < buf.rows() && pos.col <= columns_of(buf, pos.row)
}

/// The point after a command, in text mode over a buffer.
pub open spec fn point_after<B: TextBuffer>(
    layer: Layer,
    env: Surroundings<B>,
    command: EmacsBuiltin,
) -> Pos {
    layer.ran(&env, command).0.text->0.point
}

/// The smaller of two columns.
pub open spec fn nearer(a: int, b: int) -> int {
    if a < b {
        a
    } else {
        b
    }
}

/// Motions by characters go from place to place, over the end of a row to the start of the next and
/// back, and stop at the ends of the buffer. Motions by rows keep the column as far as the row goes.
/// The ends of the row and of the buffer are where they say. A page is the height of the pane less
/// two rows, at least one.
pub proof fn motions_go_where_they_say<B: TextBuffer>(
    layer: Layer,
    env: Surroundings<B>,
    text: Session,
    runtime: PaneRuntime<B>,
)
    requires
        reading(layer, env, text, runtime),
        is_place(runtime.buffer, text.point),
        text.point.row + 65536 < u32::MAX,
    ensures
        ({
            let buf = runtime.buffer;
            let p = text.point;
            let last = buf.rows() - 1;
            let pane = env.pane(text.pane_id)->0;
            let page = if pane.area is Some && (pane.area->0).height > 2 {
                (pane.area->0).height - 2
            } else {
                1
            };
            let on = point_after(layer, env, EmacsBuiltin::ForwardChar);
            let back = point_after(layer, env, EmacsBuiltin::BackwardChar);
            let below = point_after(layer, env, EmacsBuiltin::NextLine);
            let above = point_after(layer, env, EmacsBuiltin::PreviousLine);
            let left = point_after(layer, env, EmacsBuiltin::MoveBeginningOfLine);
            let right = point_after(layer, env, EmacsBuiltin::MoveEndOfLine);
            let top = point_after(layer, env, EmacsBuiltin::BeginningOfBuffer);
            let bottom = point_after(layer, env, EmacsBuiltin::EndOfBuffer);
            let down = point_after(layer, env, EmacsBuiltin::ScrollUp);
            let up = point_after(layer, env, EmacsBuiltin::ScrollDown);
            &&& p.col < columns_of(buf, p.row) ==> on.row == p.row && on.col == p.col + 1
            &&& p.col == columns_of(buf, p.row) && p.row < last ==> on.row == p.row + 1 && on.col
                == 0
            &&& p.col == columns_of(buf, p.row) && p.row == last ==> on == p
            &&& p.col > 0 ==> back.row == p.row && back.col == p.col - 1
            &&& p.col == 0 && p.row > 0 ==> back.row == p.row - 1 && back.col == columns_of(
                buf,
                back.row,
            )
            &&& p.col == 0 && p.row == 0 ==> back == p
            &&& p.row < last ==> below.row == p.row + 1 && below.col == nearer(
                p.col as int,
                columns_of(buf, below.row),
            )
            &&& p.row == last ==> below == p
            &&& p.row > 0 ==> above.row == p.row - 1 && above.col == nearer(
                p.col as int,
                columns_of(buf, above.row),
            )
            &&& p.row == 0 ==> above == p
            &&& left.row == p.row && left.col == 0
            &&& right.row == p.row && right.col == columns_of(buf, p.row)
            &&& top.row == 0 && top.col == 0
            &&& bottom.row == last && bottom.col == columns_of(buf, bottom.row)
            &&& down.row == nearer(p.row + page, last) && down.col == nearer(
                p.col as int,
                columns_of(buf, down.row),
            )
            &&& up.row == (if p.row > page {
                p.row - page
            } else {
                0
            }) && up.col == nearer(p.col as int, columns_of(buf, up.row))
        }),
{
}

/// A motion moves the point and nothing else of the layer, and asks for nothing but that the pane
/// shows the point.
pub proof fn motions_move_only_the_point<B: TextBuffer>(
    layer: Layer,
    env: Surroundings<B>,
    text: Session,
    runtime: PaneRuntime<B>,
    command: EmacsBuiltin,
)
    requires
        reading(layer, env, text, runtime),
        command is ForwardChar || command is BackwardChar || command is NextLine
            || command is PreviousLine || command is ForwardWord || command is BackwardWord
            || command is MoveBeginningOfLine || command is MoveEndOfLine || command is ScrollUp
            || command is ScrollDown || command is BeginningOfBuffer || command is EndOfBuffer,
    ensures
        ({
            let (after, effect) = layer.ran(&env, command);
            &&& after == (Layer {
                text: Some(Session { point: after.text->0.point, ..text }),
                ..layer
            })
            &&& effect is Nothing || (effect matches Effect::Scroll { pane_id, .. } && pane_id
                == text.pane_id)
        }),
{
}

/// The pane follows the point: where the point is in view it stays; otherwise it is scrolled so that
/// the point is in its first row, coming from below, or in its last, coming from above.
pub proof fn the_pane_follows_the_point<B: TextBuffer>(
    layer: Layer,
    env: Surroundings<B>,
    text: Session,
    runtime: PaneRuntime<B>,
    area: PaneArea,
    m: ScrollMetrics,
    command: EmacsBuiltin,
)
    requires
        reading(layer, env, text, runtime),
        env.pane(text.pane_id)->0.area == Some(area),
        env.pane(text.pane_id)->0.metrics == Some(m),
        m.offset_from_bottom <= m.max_offset_from_bottom,
        m.max_offset_from_bottom + 0x10000 <= u32::MAX,
        area.height > 0,
        command is ForwardChar || command is BackwardChar || command is NextLine
            || command is PreviousLine || command is ForwardWord || command is BackwardWord
            || command is ScrollUp || command is ScrollDown || command is BeginningOfBuffer
            || command is EndOfBuffer,
        layer.ran(&env, command).0.text->0.point.row < m.max_offset_from_bottom + area.height,
    ensures
        ({
            let (after, effect) = layer.ran(&env, command);
            let row = after.text->0.point.row;
            let top = m.max_offset_from_bottom - m.offset_from_bottom;
            &&& top <= row < top + area.height ==> effect is Nothing
            &&& row < top ==> (effect matches Effect::Scroll { offset, .. }
                && m.max_offset_from_bottom - offset == row)
            &&& row >= top + area.height ==> (effect matches Effect::Scroll { offset, .. }
                && m.max_offset_from_bottom - offset + area.height - 1 == row)
        }),
{
}

/// A letter, a digit or an underscore stands at a place.
pub open spec fn in_word_at<B: TextBuffer>(buf: B, pos: Pos) -> bool {
    pos.col < buf.text(pos.row).len() && (char_is_alphanumeric(buf.text(pos.row)[pos.col as int])
        || buf.text(pos.row)[pos.col as int] == '_')
}

/// Every place from one position to before another makes a word, or none does.
pub open spec fn all_between<B: TextBuffer>(buf: B, a: Pos, b: Pos, word: bool) -> bool {
    forall|q: Pos|
        is_place(buf, q) && !earlier(q, a) && earlier(q, b) ==> #[trigger] in_word_at(buf, q)
            == word
}

/// The last place of a buffer.
pub open spec fn last_place<B: TextBuffer>(buf: B) -> Pos {
    let row = (buf.rows() - 1) as u32;
    Pos { row, col: columns_of(buf, row) as u16 }
}

proof fn lemma_skipped_on_facts<B: TextBuffer>(buf: B, pos: Pos, word: bool)
    requires
        is_place(buf, pos),
    ensures
        ({
            let e = skipped_on(&buf, pos, word);
            &&& is_place(buf, e)
            &&& !earlier(e, pos)
            &&& all_between(buf, pos, e, word)
            &&& e != last_place(buf) ==> in_word_at(buf, e) != word
        }),
    decreases final_row(&buf) - pos.row, row_len(&buf, pos.row) - pos.col,
{
    assert(inside(&buf, pos));
    assert(end_of(&buf) == last_place(buf));
    assert(word_at(&buf, pos) == in_word_at(buf, pos));
    if pos.before(end_of(&buf)) && word_at(&buf, pos) == word {
        let next = char_after(&buf, pos);
        lemma_skipped_on_facts(buf, next, word);
        let e = skipped_on(&buf, pos, word);
        assert forall|q: Pos|
            is_place(buf, q) && !earlier(q, pos) && earlier(q, e) implies #[trigger] in_word_at(
            buf,
            q,
        ) == word by {
            if q != pos {
                assert(!earlier(q, next));
            }
        }
    }
}

proof fn lemma_skipped_back_facts<B: TextBuffer>(buf: B, pos: Pos, word: bool)
    requires
        is_place(buf, pos),
    ensures
        ({
            let b = skipped_back(&buf, pos, word);
            &&& is_place(buf, b)
            &&& !earlier(pos, b)
            &&& all_between(buf, b, pos, word)
            &&& b != (Pos { row: 0, col: 0 }) ==> in_word_at(buf, char_before(&buf, b)) != word
        }),
    decreases pos.row, pos.col,
{
    assert(inside(&buf, pos));
    let prev = char_before(&buf, pos);
    assert(word_at(&buf, prev) == in_word_at(buf, prev));
    if buffer_beginning().before(pos) && word_at(&buf, prev) == word {
        lemma_skipped_back_facts(buf, prev, word);
        let b = skipped_back(&buf, pos, word);
        assert forall|q: Pos|
            is_place(buf, q) && !earlier(q, b) && earlier(q, pos) implies #[trigger] in_word_at(
            buf,
            q,
        ) == word by {
            if q != prev {
                assert(earlier(q, prev));
            }
        }
    }
}

/// Moving forward by a word, across rows, ends behind the first word that reaches beyond the point:
/// from the point there lie places that make no word, then those of one word, and no word goes on
/// there. Where no word follows, it ends at the end of the buffer.
pub proof fn forward_word_goes_over_a_word<B: TextBuffer>(
    layer: Layer,
    env: Surroundings<B>,
    text: Session,
    runtime: PaneRuntime<B>,
)
    requires
        reading(layer, env, text, runtime),
        is_place(runtime.buffer, text.point),
    ensures
        ({
            let buf = runtime.buffer;
            let e = point_after(layer, env, EmacsBuiltin::ForwardWord);
            let follows = exists|q: Pos|
                is_place(buf, q) && !earlier(q, text.point) && earlier(q, last_place(buf))
                    && #[trigger] in_word_at(buf, q);
            &&& is_place(buf, e) && !earlier(e, text.point)
            &&& e != last_place(buf) ==> !in_word_at(buf, e)
            &&& !follows ==> e == last_place(buf)
            &&& follows ==> exists|w: Pos|
                is_place(buf, w) && #[trigger] in_word_at(buf, w) && !earlier(w, text.point)
                    && earlier(w, e) && all_between(buf, text.point, w, false) && all_between(
                    buf,
                    w,
                    e,
                    true,
                )
        }),
{
    let buf = runtime.buffer;
    assert(clamped(&buf, text.point) == text.point);
    let w = skipped_on(&buf, text.point, false);
    let e = skipped_on(&buf, w, true);
    lemma_skipped_on_facts(buf, text.point, false);
    lemma_skipped_on_facts(buf, w, true);
    assert(e == word_end_after(&buf, text.point));
    assert(point_after(layer, env, EmacsBuiltin::ForwardWord) == e);
    if exists|q: Pos|
        is_place(buf, q) && !earlier(q, text.point) && earlier(q, last_place(buf))
            && #[trigger] in_word_at(buf, q) {
        let q = choose|q: Pos|
            is_place(buf, q) && !earlier(q, text.point) && earlier(q, last_place(buf))
                && #[trigger] in_word_at(buf, q);
        assert(!earlier(q, w));
        assert(w != last_place(buf));
        assert(in_word_at(buf, w));
        if e == w {
            assert(in_word_at(buf, e));
            assert(e != last_place(buf));
        }
    }
}

/// Moving backward by a word is the same the other way round.
pub proof fn backward_word_goes_over_a_word<B: TextBuffer>(
    layer: Layer,
    env: Surroundings<B>,
    text: Session,
    runtime: PaneRuntime<B>,
)
    requires
        reading(layer, env, text, runtime),
        is_place(runtime.buffer, text.point),
    ensures
        ({
            let buf = runtime.buffer;
            let b = point_after(layer, env, EmacsBuiltin::BackwardWord);
            let precedes = exists|q: Pos|
                is_place(buf, q) && earlier(q, text.point) && #[trigger] in_word_at(buf, q);
            &&& is_place(buf, b) && !earlier(text.point, b)
            &&& !precedes ==> b == (Pos { row: 0, col: 0 })
            &&& precedes ==> in_word_at(buf, b) && exists|m: Pos|
                is_place(buf, m) && earlier(b, m) && !earlier(text.point, m)
                    && #[trigger] all_between(buf, b, m, true) && all_between(
                    buf,
                    m,
                    text.point,
                    false,
                )
            &&& b.col > 0 && precedes ==> !in_word_at(
                buf,
                Pos { row: b.row, col: (b.col - 1) as u16 },
            )
        }),
{
    let buf = runtime.buffer;
    assert(clamped(&buf, text.point) == text.point);
    let m = skipped_back(&buf, text.point, false);
    let b = skipped_back(&buf, m, true);
    lemma_skipped_back_facts(buf, text.point, false);
    lemma_skipped_back_facts(buf, m, true);
    assert(b == word_start_before(&buf, text.point));
    assert(point_after(layer, env, EmacsBuiltin::BackwardWord) == b);
    if exists|q: Pos|
        is_place(buf, q) && earlier(q, text.point) && #[trigger] in_word_at(buf, q) {
        let q = choose|q: Pos|
            is_place(buf, q) && earlier(q, text.point) && #[trigger] in_word_at(buf, q);
        assert(earlier(q, m));
        assert(m != (Pos { row: 0, col: 0 }));
        let before = char_before(&buf, m);
        assert(in_word_at(buf, before));
        assert(is_place(buf, before));
        if b == m {
            assert(in_word_at(buf, char_before(&buf, b)));
        }
        assert(earlier(b, m));
        assert(in_word_at(buf, b));
        assert(all_between(buf, b, m, true));
    } else if m != (Pos { row: 0, col: 0 }) {
        let before = char_before(&buf, m);
        assert(is_place(buf, before) && earlier(before, text.point));
        assert(in_word_at(buf, before));
    }
}

/// What is typed into a pane: deletions for what is to go, then the text, between the marks of a
/// bracketed paste where the terminal asked for them.
pub proof fn typed_text_is_framed(text: Seq<char>, erase: nat)
    ensures
        typed(text, 0, false) == encode_utf8(text),
        typed(text, 0, true) == seq![0x1bu8, 0x5b, 0x32, 0x30, 0x30, 0x7e] + encode_utf8(text)
            + seq![0x1bu8, 0x5b, 0x32, 0x30, 0x31, 0x7e],
        typed(text, erase, false).len() == erase + encode_utf8(text).len(),
        forall|bracketed: bool, i: int|
            0 <= i < erase ==> #[trigger] typed(text, erase, bracketed)[i] == 0x7f,
        forall|bracketed: bool|
            (#[trigger] typed(text, erase, bracketed)).skip(erase as int) == typed(
                text,
                0,
                bracketed,
            ),
{
    assert(typed(text, 0, false) =~= encode_utf8(text));
    assert(typed(text, 0, true) =~= seq![0x1bu8, 0x5b, 0x32, 0x30, 0x30, 0x7e] + encode_utf8(text)
        + seq![0x1bu8, 0x5b, 0x32, 0x30, 0x31, 0x7e]);
    assert forall|bracketed: bool|
        (#[trigger] typed(text, erase, bracketed)).skip(erase as int) == typed(
            text,
            0,
            bracketed,
        ) by {
        assert(typed(text, erase, bracketed).skip(erase as int) =~= typed(text, 0, bracketed));
    }
}

/// A live yank types the newest kill into the focused pane. A clipboard that is followed and holds
/// something new comes first. With nothing to yank the echo area says so.
pub proof fn yanks_type_the_newest_kill<B: TextBuffer>(
    layer: Layer,
    env: Surroundings<B>,
    clip: Seq<char>,
    id: u64,
    runtime: PaneRuntime<B>,
)
    requires
        layer.kill_ring_max >= 1,
        env.focused == Some(id),
        env.pane(id) is Some,
        env.pane(id)->0.runtime == Some(runtime),
    ensures
        ({
            let (plain, plain_effect) = layer.yanked(&env, None);
            let (synced, synced_effect) = layer.yanked(&env, Some(clip));
            let types = |text: Seq<char>|
                Effect::Type {
                    pane_id: id,
                    bytes: typed(text, 0, runtime.bracketed_paste),
                    chars: text.len() as usize,
                };
            &&& plain.kills == layer.kills && plain.yank_index == 0
            &&& layer.kills.len() > 0 ==> plain_effect == types(layer.kills[0])
            &&& layer.kills.len() == 0 ==> plain_effect is Nothing && plain.echo == Some(
                "Kill ring is empty"@,
            )
            &&& layer.clipboard_sync && clip.len() > 0 ==> synced_effect == types(clip)
                && synced.kills.len() > 0 && synced.kills[0] == clip
            &&& layer.clipboard_sync && clip.len() == 0 ==> synced_effect == plain_effect
                && synced.kills == layer.kills
            &&& !layer.clipboard_sync ==> synced_effect == plain_effect && synced == plain
        }),
        layer.text is None ==> layer.ran(&env, EmacsBuiltin::Yank) == (layer, Effect::Yank),
{
}

/// Right after a yank in the same pane, a yank-pop deletes what it typed and types the next older
/// kill, the newest again behind the oldest. Anywhere else the echo area says that there was no yank.
/// Two in a row without a yank between are refused too, until the first has been typed.
pub proof fn yank_pops_go_back_in_the_ring<B: TextBuffer>(
    layer: Layer,
    env: Surroundings<B>,
    id: u64,
    runtime: PaneRuntime<B>,
)
    requires
        layer.text is None,
        env.focused == Some(id),
        env.pane(id) is Some,
        env.pane(id)->0.runtime == Some(runtime),
        layer.kills.len() <= usize::MAX,
        layer.kills.len() > 0 ==> layer.yank_index < layer.kills.len(),
    ensures
        ({
            let (after, effect) = layer.ran(&env, EmacsBuiltin::YankPop);
            let next = if layer.yank_index + 1 < layer.kills.len() {
                layer.yank_index + 1
            } else {
                0
            };
            &&& after.last_yank is None
            &&& after.kills == layer.kills
            &&& layer.last_yank is None ==> effect is Nothing && after.echo == Some(
                "Previous command was not a yank"@,
            )
            &&& layer.last_yank matches Some(last) ==> {
                &&& last.pane_id != id ==> effect is Nothing && after.echo == Some(
                    "Previous command was not a yank"@,
                )
                &&& last.pane_id == id && layer.kills.len() > 0 ==> after.yank_index == next
                    && effect == (Effect::Type {
                    pane_id: id,
                    bytes: typed(layer.kills[next], last.chars as nat, runtime.bracketed_paste),
                    chars: layer.kills[next].len() as usize,
                })
            }
        }),
{
    if layer.kills.len() > 0 {
        let n = layer.kills.len() as int;
        let k = layer.yank_index + 1;
        if k < n {
            assert(k % n == k) by {
                vstd::arithmetic::div_mod::lemma_small_mod(k as nat, n as nat);
            }
        } else {
            assert(k == n);
            assert(n % n == 0) by {
                vstd::arithmetic::div_mod::lemma_mod_self_0(n);
            }
        }
    }
}

/// Over a frozen buffer nothing is typed: yanks and quoted insertion are refused.
pub proof fn text_mode_types_nothing<B: TextBuffer>(layer: Layer, env: Surroundings<B>)
    requires
        layer.text is Some,
    ensures
        ({
            let refused = (Layer { echo: Some("Buffer is read-only"@), ..layer }, Effect::Nothing);
            &&& layer.ran(&env, EmacsBuiltin::Yank) == refused
            &&& layer.ran(&env, EmacsBuiltin::YankPop) == refused
            &&& layer.ran(&env, EmacsBuiltin::QuotedInsert) == refused
        }),
{
}

/// Text mode begins in the focused pane at its visible cursor, or at the left of the last row in view,
/// with no mark; it remembers how the pane was scrolled, and ending it scrolls the pane back there.
pub proof fn text_mode_begins_at_the_cursor<B: TextBuffer>(
    layer: Layer,
    env: Surroundings<B>,
    id: u64,
    area: PaneArea,
    m: ScrollMetrics,
    runtime: PaneRuntime<B>,
)
    requires
        layer.text is None,
        env.focused == Some(id),
        env.pane(id) is Some,
        env.pane(id)->0.area == Some(area),
        env.pane(id)->0.metrics == Some(m),
        env.pane(id)->0.runtime == Some(runtime),
        area.width > 0,
        area.height > 0,
        m.offset_from_bottom <= m.max_offset_from_bottom,
        m.max_offset_from_bottom + 0x10000 <= u32::MAX,
        runtime.buffer.rows() > 0,
    ensures
        ({
            let (entered, effect) = layer.ran(&env, EmacsBuiltin::TextMode);
            let (left, scroll) = entered.ran(&env, EmacsBuiltin::ExitTextMode);
            let buf = runtime.buffer;
            let top = m.max_offset_from_bottom - m.offset_from_bottom;
            let text = entered.text->0;
            let cursor = runtime.cursor->0;
            let at = Pos {
                row: (top + cursor.y - area.y) as u32,
                col: (cursor.x - area.x) as u16,
            };
            &&& effect is Nothing && entered.text is Some
            &&& text.pane_id == id && text.mark is None && !text.mark_active
            &&& text.goto_line is None && text.isearch is None
            &&& is_place(buf, text.point)
            &&& runtime.cursor is Some && cursor.visible && cursor.x >= area.x && cursor.y >= area.y
                && is_place(buf, at) ==> text.point == at
            &&& (runtime.cursor is None || !runtime.cursor->0.visible) && top + area.height - 1
                < buf.rows() ==> text.point == (Pos {
                row: (top + area.height - 1) as u32,
                col: 0,
            })
            &&& left == layer
            &&& scroll == (Effect::Scroll { pane_id: id, offset: m.offset_from_bottom })
        }),
{
}

/// Quitting gives up a pending sequence and the active region and says so.
pub proof fn quitting_gives_up<B: TextBuffer>(layer: Layer, env: Surroundings<B>)
    ensures
        ({
            let (after, effect) = layer.ran(&env, EmacsBuiltin::KeyboardQuit);
            &&& effect is Nothing
            &&& after.pending.len() == 0
            &&& after.echo == Some("Quit"@)
            &&& layer.text matches Some(text) ==> after.text == Some(
                Session { mark_active: false, ..text },
            )
            &&& layer.text is None ==> after.text is None
            &&& after.kills == layer.kills && after.marks == layer.marks
        }),
{
}

/// The layer takes the key as a press: it is on, a pane has the keyboard, and text mode, if it is on,
/// has its pane.
pub open spec fn takes_press<B>(layer: Layer, env: Surroundings<B>, key: TerminalKey) -> bool {
    &&& layer.enabled
    &&& env.terminal_mode
    &&& key.kind is Press || (key.kind is Repeat && layer.text is Some)
    &&& layer.text matches Some(text) ==> env.focused == Some(text.pane_id) && env.runs(
        text.pane_id,
    )
}

/// The goto-line prompt takes every key: digits are added, backspace takes the last one away, escape
/// and `C-g` close it, and enter closes it and moves the point to the start of the line with that
/// number, counted from one, or to the last line where there are fewer.
pub proof fn goto_line_goes_to_the_line<B: TextBuffer>(
    layer: Layer,
    env: Surroundings<B>,
    key: TerminalKey,
    text: Session,
    runtime: PaneRuntime<B>,
    input: Seq<char>,
    c: char,
)
    requires
        takes_press(layer, env, key),
        reading(layer, env, text, runtime),
        !layer.quoted_insert,
        text.goto_line == Some(input),
        runtime.buffer.rows() > 0,
    ensures
        ({
            let (taken, restored, (after, effect)) = layer.keyed(&env, key);
            let plain = !key.modifiers.control && !key.modifiers.alt;
            let n = parsed_unsigned(input, u32::MAX as nat);
            let prompt = after.text->0.goto_line;
            &&& taken && restored is None && after.text is Some
            &&& after.text->0.mark == text.mark
            &&& key.code == KeyCode::Char(c) && '0' <= c && c <= '9' && plain ==> prompt == Some(
                input.push(c),
            ) && after.text->0.point == text.point && effect is Nothing
            &&& key.code is Backspace && plain && input.len() > 0 ==> prompt == Some(
                input.drop_last(),
            ) && after.text->0.point == text.point
            &&& key.code is Esc || (key.code == KeyCode::Char('g') && key.modifiers.control)
                ==> prompt is None && after.text->0.point == text.point && effect is Nothing
            &&& key.code is Enter ==> prompt is None
            &&& key.code is Enter && (n is None || n == Some(0nat)) ==> after.text->0.point
                == text.point
            &&& key.code is Enter && n is Some && n->0 > 0 ==> after.text->0.point.col == 0
                && after.text->0.point.row == nearer(n->0 - 1, runtime.buffer.rows() - 1)
        }),
        layer.ran(&env, EmacsBuiltin::GotoLine).0 == (Layer {
            text: Some(Session { goto_line: Some(Seq::empty()), ..text }),
            ..layer
        }),
{
}

/// A quoted key goes to the focused pane as it is, once.
pub proof fn quoted_keys_go_to_the_pane<B: TextBuffer>(
    layer: Layer,
    env: Surroundings<B>,
    key: TerminalKey,
    id: u64,
)
    requires
        takes_press(layer, env, key),
        env.focused == Some(id),
        env.runs(id),
    ensures
        layer.text is None ==> layer.ran(&env, EmacsBuiltin::QuotedInsert).0.quoted_insert,
        layer.quoted_insert ==> ({
            let (taken, restored, (after, effect)) = layer.keyed(&env, key);
            &&& taken && restored is None
            &&& effect == (Effect::SendKey { pane_id: id, key })
            &&& after == (Layer { quoted_insert: false, echo: None, ..layer })
        }),
{
}

/// A key continues what is pending. Where the keymaps bind the sequence to a command, the command
/// runs and nothing is pending any more. Where they bind longer ones, the key is taken, the sequence
/// is pending and is shown. Where they bind none, nothing is pending any more: a first key outside
/// text mode goes to the pane; a character in text mode is refused; any other is said to be undefined.
pub proof fn sequences_lead_to_commands<B: TextBuffer>(
    layer: Layer,
    env: Surroundings<B>,
    key: TerminalKey,
    chord: Chord,
)
    requires
        takes_press(layer, env, key),
        !layer.quoted_insert,
        layer.text matches Some(text) ==> text.goto_line is None,
        canonical(key.modifiers.control, key.modifiers.alt, key.code) == Some(chord),
        layer.pending.len() == 0 || chord != (Chord {
            ctrl: true,
            meta: false,
            code: KeyCode::Char('g'),
        }),
    ensures
        ({
            let (taken, restored, (after, effect)) = layer.keyed(&env, key);
            let seq = layer.pending.push(chord);
            let in_text = layer.minibuffer is None && layer.text is Some
                && layer.text->0.isearch is None;
            let plain = !chord.ctrl && !chord.meta && (chord.code matches KeyCode::Char(c) && c as u32
                > 0x1f && !(0x7f <= c as u32 <= 0x9f));
            let start = Layer { pending: Seq::empty(), echo: None, ..layer };
            &&& restored is None
            &&& match stack_looked_up(layer.maps.stack(layer.context()), seq) {
                Lookup::Bound(EmacsCommand::Builtin(command)) => taken && (after, effect) == (
                if command is Yank || command is YankPop {
                    start.ran(&env, command)
                } else {
                    (Layer { last_yank: None, ..start }).ran(&env, command)
                }),
                Lookup::Bound(EmacsCommand::Herdr(action)) => taken && effect is Navigate
                    && after == (Layer { last_yank: None, ..start }),
                Lookup::Prefix => {
                    &&& taken && effect is Nothing
                    &&& after == (Layer {
                        pending: seq,
                        echo: Some(sequence_name(seq) + "-"@),
                        ..layer
                    })
                },
                Lookup::Unbound => {
                    &&& effect is Nothing
                    &&& after.pending.len() == 0
                    &&& after == (Layer {
                        pending: Seq::empty(),
                        last_yank: None,
                        echo: after.echo,
                        ..layer
                    })
                    &&& !in_text && seq.len() == 1 ==> !taken && after.echo is None
                    &&& in_text && seq.len() == 1 && plain ==> taken && after.echo == Some(
                        "Buffer is read-only"@,
                    )
                    &&& seq.len() > 1 || (in_text && !plain) ==> taken && after.echo == Some(
                        sequence_name(seq) + " is undefined"@,
                    )
                },
            }
        }),
{
}

/// Commands of the multiplexer are handed on. Those that go to a numbered place go to the one that the
/// prefix argument names, counted from one, and to the first without one.
pub proof fn multiplexer_commands_are_handed_on<B: TextBuffer>(
    layer: Layer,
    env: Surroundings<B>,
    action: NavigateAction,
    place: usize,
    prefix: Option<i64>,
)
    ensures
        ({
            let index: int = if prefix is Some && prefix->0 > 1 {
                prefix->0 - 1
            } else {
                0
            };
            let run = |action: NavigateAction|
                layer.executed(&env, EmacsCommand::Herdr(action), prefix);
            &&& run(action).1 is Navigate
            &&& run(action).0 == (Layer { last_yank: None, ..layer })
            &&& !(action is SwitchWorkspace) && !(action is SwitchTab) && !(action is FocusAgent)
                ==> run(action).1 == Effect::Navigate(action)
            &&& index <= usize::MAX ==> {
                &&& run(NavigateAction::SwitchWorkspace(place)).1 == Effect::Navigate(
                    NavigateAction::SwitchWorkspace(index as usize),
                )
                &&& run(NavigateAction::SwitchTab(place)).1 == Effect::Navigate(
                    NavigateAction::SwitchTab(index as usize),
                )
                &&& run(NavigateAction::FocusAgent(place)).1 == Effect::Navigate(
                    NavigateAction::FocusAgent(index as usize),
                )
            }
        }),
{
}

/// Text mode ends by itself when its pane loses the focus or its terminal: the pane is scrolled back,
/// and the key counts as pressed without it. Releases, and repeats outside text mode, run nothing. A
/// layer without a pane that has the keyboard lets every key pass.
pub proof fn stray_keys_do_no_harm<B: TextBuffer>(
    layer: Layer,
    env: Surroundings<B>,
    key: TerminalKey,
)
    ensures
        ({
            let (taken, restored, (after, effect)) = layer.keyed(&env, key);
            let press = key.kind is Press || (key.kind is Repeat && layer.text is Some);
            let lost = layer.text is Some && (env.focused != Some(layer.text->0.pane_id)
                || !env.runs(layer.text->0.pane_id));
            &&& !layer.enabled || !env.terminal_mode ==> !taken && restored is None && after == layer
                && effect is Nothing
            &&& layer.enabled && env.terminal_mode && !press ==> restored is None && after == layer
                && effect is Nothing
            &&& layer.enabled && env.terminal_mode && press && lost ==> {
                &&& restored == Some(
                    (layer.text->0.pane_id, layer.text->0.entry_offset_from_bottom),
                )
                &&& key.kind is Press ==> (Layer { text: None, ..layer }).keyed(&env, key) == (
                    taken,
                    None::<(u64, usize)>,
                    (after, effect),
                )
            }
        }),
{
}

/// A release, and a repeat outside text mode, is kept from the pane exactly when the press was: in text
/// mode, behind `C-q`, within a sequence, and where a command or a sequence begins with the key.
pub proof fn releases_follow_their_press<B: TextBuffer>(
    layer: Layer,
    env: Surroundings<B>,
    key: TerminalKey,
)
    requires
        layer.enabled,
        env.terminal_mode,
        key.kind is Release || (key.kind is Repeat && layer.text is None),
    ensures
        ({
            let taken = layer.keyed(&env, key).0;
            let chord = Chord {
                ctrl: key.modifiers.control,
                meta: key.modifiers.alt,
                code: key.code,
            };
            let begins = canonical(key.modifiers.control, key.modifiers.alt, key.code) is Some
                && !(stack_looked_up(layer.maps.stack(layer.context()), seq![chord]) is Unbound);
            &&& layer.text is Some || layer.quoted_insert || layer.pending.len() > 0 ==> taken
            &&& layer.text is None && !layer.quoted_insert && layer.pending.len() == 0 ==> taken
                == begins
        }),
{
}

/// Outside text mode, without the focus and without a terminal there is no point to move: motions and
/// the goto-line prompt's answer leave everything as it is.
pub proof fn nothing_moves_without_a_pane<B: TextBuffer>(
    layer: Layer,
    env: Surroundings<B>,
    command: EmacsBuiltin,
)
    requires
        command is ForwardChar || command is BackwardChar || command is NextLine
            || command is PreviousLine || command is ForwardWord || command is BackwardWord
            || command is MoveBeginningOfLine || command is MoveEndOfLine || command is ScrollUp
            || command is ScrollDown || command is BeginningOfBuffer || command is EndOfBuffer,
        layer.text is None || env.focused is None || env.pane(layer.text->0.pane_id) is None
            || env.pane(layer.text->0.pane_id)->0.runtime is None,
    ensures
        layer.ran(&env, command) == (layer, Effect::Nothing),
{
}

/// Text mode begins once, and only in a pane that has the focus, a terminal, a scrollback and some
/// room.
pub proof fn text_mode_needs_a_pane<B: TextBuffer>(layer: Layer, env: Surroundings<B>)
    requires
        layer.text is Some || env.focused is None || env.pane(env.focused->0) is None || {
            let pane = env.pane(env.focused->0)->0;
            ||| pane.area is None || pane.metrics is None || pane.runtime is None
            ||| pane.area->0.width == 0 || pane.area->0.height == 0
        },
    ensures
        layer.ran(&env, EmacsBuiltin::TextMode) == (layer, Effect::Nothing),
{
}

/// Outside text mode there is no mark to set, nothing to leave and no line to go to.
pub proof fn text_commands_need_text_mode<B: TextBuffer>(layer: Layer, env: Surroundings<B>)
    requires
        layer.text is None,
    ensures
        layer.ran(&env, EmacsBuiltin::SetMark) == (layer, Effect::Nothing),
        layer.ran(&env, EmacsBuiltin::ExitTextMode) == (layer, Effect::Nothing),
        layer.ran(&env, EmacsBuiltin::GotoLine) == (layer, Effect::Nothing),
        layer.ran(&env, EmacsBuiltin::Yank) == (layer, Effect::Yank),
        layer.ran(&env, EmacsBuiltin::QuotedInsert) == (
            Layer { quoted_insert: true, echo: Some("C-q-"@), ..layer },
            Effect::Nothing,
        ),
{
}

/// The active tab changes places with its neighbour; at the end of the row it stays.
pub proof fn tabs_move_past_their_neighbour<B: TextBuffer>(
    layer: Layer,
    env: Surroundings<B>,
    source: usize,
    count: usize,
)
    requires
        env.tabs == Some((source, count)),
        source < count,
        count < usize::MAX,
    ensures
        layer.ran(&env, EmacsBuiltin::MoveTabRight) == (
            layer,
            if source == count - 1 {
                Effect::Nothing
            } else {
                Effect::MoveTab { source, insert: (source + 2) as usize }
            },
        ),
        layer.ran(&env, EmacsBuiltin::MoveTabLeft) == (
            layer,
            if source == 0 {
                Effect::Nothing
            } else {
                Effect::MoveTab { source, insert: (source - 1) as usize }
            },
        ),
{
}

} // verus!
