//! What the layer does with a key.
//!
//! The layer's own state changes here; what only the terminal side can do (send bytes, scroll a
//! pane, read a region, run a navigate action) comes back as an effect. The caller describes the
//! panes as they are when the key arrives.

use crate::emacs::commands::{
    builtin_name, herdr_action_is_indexed, EmacsBuiltin, EmacsCommand, MapContext, NavigateAction,
};
use crate::emacs::keymap::{
    canonical, format_seq, sequence_name, stack_looked_up, Chord, Lookup,
};
use crate::emacs::rings::{at_most, Mark, MarkRing};
use crate::emacs::state::{marks_view, EmacsState, LastYank, Layer, PaneMarks, Session};
use crate::emacs::text_mode::{
    backward_char, backward_word, buffer_beginning, buffer_end, char_after, char_before, clamp,
    clamped, end_of, forward_char, forward_word, line_beginning, line_end, next_line, previous_line,
    row_after, row_before, row_len, word_end_after, word_start_before, Pos, TextBuffer,
    TextModeState,
};
use crate::input::{KeyCode, KeyEventKind, TerminalKey};
use crate::text::{chars_of, opt_text, parse_unsigned, parsed_unsigned, string_of};
use vstd::prelude::*;
use vstd::utf8::encode_utf8;

verus! {

/// The part of the screen that a pane fills.
#[derive(Debug, Clone, Copy, PartialEq, Eq, Structural)]
pub struct PaneArea {
    pub x: u16,
    pub y: u16,
    pub width: u16,
    pub height: u16,
}

/// How far a pane is scrolled up from its bottom, and how far it can be.
#[derive(Debug, Clone, Copy, PartialEq, Eq, Structural)]
pub struct ScrollMetrics {
    pub offset_from_bottom: usize,
    pub max_offset_from_bottom: usize,
}

impl ScrollMetrics {
    /// The offset is within bounds, and the rows can be counted.
    pub open spec fn wf(self) -> bool {
        self.offset_from_bottom <= self.max_offset_from_bottom && self.max_offset_from_bottom
            + 0x10000 <= u32::MAX
    }
}

/// The terminal cursor on the screen.
#[derive(Debug, Clone, Copy, PartialEq, Eq, Structural)]
pub struct CursorState {
    pub x: u16,
    pub y: u16,
    pub visible: bool,
}

/// A pane's running terminal.
#[derive(Debug, PartialEq, Eq)]
pub struct PaneRuntime<B> {
    pub buffer: B,
    pub cursor: Option<CursorState>,
    /// The number of columns, when the terminal has a grid.
    pub columns: Option<u16>,
    pub bracketed_paste: bool,
}

/// A pane of the active workspace.
#[derive(Debug, PartialEq, Eq)]
pub struct PaneView<B> {
    pub pane_id: u64,
    pub area: Option<PaneArea>,
    pub metrics: Option<ScrollMetrics>,
    pub runtime: Option<PaneRuntime<B>>,
}

/// What surrounds the layer when a key arrives.
#[derive(Debug, PartialEq, Eq)]
pub struct Surroundings<B> {
    /// A pane has the keyboard, and no overlay of the multiplexer.
    pub terminal_mode: bool,
    /// The focused pane of the active workspace.
    pub focused: Option<u64>,
    pub panes: Vec<PaneView<B>>,
    /// The active tab of the active workspace and how many tabs it has.
    pub tabs: Option<(usize, usize)>,
}

/// The first pane with an id.
pub open spec fn pane_from<B>(panes: Seq<PaneView<B>>, i: int, id: u64) -> Option<PaneView<B>>
    decreases panes.len() - i,
{
    if i >= panes.len() {
        None
    } else if panes[i].pane_id == id {
        Some(panes[i])
    } else {
        pane_from(panes, i + 1, id)
    }
}

impl<B> Surroundings<B> {
    pub open spec fn pane(&self, id: u64) -> Option<PaneView<B>> {
        pane_from(self.panes@, 0, id)
    }

    /// Panes are scrolled no further than they can be, and their rows can be counted.
    pub open spec fn wf(&self) -> bool {
        forall|i: int|
            0 <= i < self.panes@.len() ==> ((#[trigger] self.panes@[i]).metrics matches Some(m) ==>
                m.wf())
    }

    /// The pane has a running terminal.
    pub open spec fn runs(&self, id: u64) -> bool {
        self.pane(id) matches Some(pane) && pane.runtime is Some
    }

    fn find(&self, id: u64) -> (r: Option<&PaneView<B>>)
        requires
            self.wf(),
        ensures
            match (r, self.pane(id)) {
                (Some(p), Some(q)) => *p == q && p.pane_id == id && (p.metrics matches Some(m) ==> m.wf()),
                (None, None) => true,
                _ => false,
            },
    {
        let mut i: usize = 0;
        while i < self.panes.len()
            invariant
                i <= self.panes@.len(),
                self.wf(),
                self.pane(id) == pane_from(self.panes@, i as int, id),
            decreases self.panes@.len() - i,
        {
            if self.panes[i].pane_id == id {
                return Some(&self.panes[i]);
            }
            i += 1;
        }
        None
    }

    fn is_running(&self, id: u64) -> (r: bool)
        requires
            self.wf(),
        ensures
            r == self.runs(id),
    {
        match self.find(id) {
            Some(pane) => pane.runtime.is_some(),
            None => false,
        }
    }
}

/// Something for the terminal side to do.
#[derive(Debug, PartialEq, Eq)]
pub enum EmacsEffect {
    Nothing,
    /// Scroll a pane to an offset from its bottom.
    Scroll { pane_id: u64, offset: usize },
    /// Send a key to a pane as it is.
    SendKey { pane_id: u64, key: TerminalKey },
    Navigate(NavigateAction),
    /// Move the active tab: from its place to before the tab at `insert`, counted before the move.
    MoveTab { source: usize, insert: usize },
    /// Read the text from `start` to `end`, both included, and hand it back as a killed region.
    ReadRegion { pane_id: u64, start: Pos, end: Pos },
    /// Read the clipboard if it is to be followed, and yank.
    Yank,
    /// Send bytes to a pane; when they were sent, `chars` characters count as yanked there.
    Type { pane_id: u64, bytes: Vec<u8>, chars: usize },
}

/// An effect, with bytes as a sequence.
#[verifier::ext_equal]
pub enum Effect {
    Nothing,
    Scroll { pane_id: u64, offset: usize },
    SendKey { pane_id: u64, key: TerminalKey },
    Navigate(NavigateAction),
    MoveTab { source: usize, insert: usize },
    ReadRegion { pane_id: u64, start: Pos, end: Pos },
    Yank,
    Type { pane_id: u64, bytes: Seq<u8>, chars: usize },
}

impl View for EmacsEffect {
    type V = Effect;

    open spec fn view(&self) -> Effect {
        match *self {
            EmacsEffect::Nothing => Effect::Nothing,
            EmacsEffect::Scroll { pane_id, offset } => Effect::Scroll { pane_id, offset },
            EmacsEffect::SendKey { pane_id, key } => Effect::SendKey { pane_id, key },
            EmacsEffect::Navigate(action) => Effect::Navigate(action),
            EmacsEffect::MoveTab { source, insert } => Effect::MoveTab { source, insert },
            EmacsEffect::ReadRegion { pane_id, start, end } => Effect::ReadRegion {
                pane_id,
                start,
                end,
            },
            EmacsEffect::Yank => Effect::Yank,
            EmacsEffect::Type { pane_id, bytes, chars } => Effect::Type {
                pane_id,
                bytes: bytes@,
                chars,
            },
        }
    }
}

/// What became of a key.
#[derive(Debug, PartialEq, Eq)]
pub struct KeyOutcome {
    /// The key does not go on to the pane.
    pub consumed: bool,
    /// Text mode ended because its pane lost the focus or its terminal: scroll it back there.
    pub restored: Option<(u64, usize)>,
    pub effect: EmacsEffect,
}

/// The row at the top of a pane's view.
pub open spec fn top_row(m: ScrollMetrics) -> int {
    m.max_offset_from_bottom - m.offset_from_bottom
}

/// Where a pane has to scroll to so that `point` is in view; none when it is.
pub open spec fn scroll_for<B>(pane: Option<PaneView<B>>, point: Pos) -> Option<usize> {
    match pane {
        Some(PaneView { area: Some(area), metrics: Some(m), .. }) => {
            let top = top_row(m);
            let rows: int = if area.height == 0 {
                1
            } else {
                area.height as int
            };
            let new_top = if point.row < top {
                point.row as int
            } else {
                point.row + 1 - rows
            };
            if top <= point.row < top + rows {
                None
            } else if new_top < m.max_offset_from_bottom {
                Some((m.max_offset_from_bottom - new_top) as usize)
            } else {
                Some(0)
            }
        },
        _ => None,
    }
}

pub open spec fn scroll_effect<B>(pane: Option<PaneView<B>>, id: u64, point: Pos) -> Effect {
    match scroll_for(pane, point) {
        Some(offset) => Effect::Scroll { pane_id: id, offset },
        None => Effect::Nothing,
    }
}

fn scroll_into_view<B>(pane: Option<&PaneView<B>>, id: u64, point: Pos) -> (r: EmacsEffect)
    requires
        point.row < u32::MAX,
        pane matches Some(p) ==> (p.metrics matches Some(m) ==> m.wf()),
    ensures
        r@ == scroll_effect(
            match pane {
                Some(p) => Some(*p),
                None => None,
            },
            id,
            point,
        ),
{
    let Some(pane) = pane else {
        return EmacsEffect::Nothing;
    };
    let (Some(area), Some(metrics)) = (pane.area, pane.metrics) else {
        return EmacsEffect::Nothing;
    };
    let view_rows: u32 = if area.height == 0 {
        1
    } else {
        area.height as u32
    };
    let top: u32 = (metrics.max_offset_from_bottom - metrics.offset_from_bottom) as u32;
    let new_top: u32 = if point.row < top {
        point.row
    } else if point.row >= top + view_rows {
        point.row + 1 - view_rows
    } else {
        return EmacsEffect::Nothing;
    };
    let offset: usize = if (new_top as u64) < metrics.max_offset_from_bottom as u64 {
        metrics.max_offset_from_bottom - new_top as usize
    } else {
        0
    };
    EmacsEffect::Scroll { pane_id: id, offset }
}

/// A motion of the point by a command, `page` rows for a page.
pub open spec fn motion<B: TextBuffer>(
    buf: &B,
    point: Pos,
    command: EmacsBuiltin,
    page: int,
) -> Pos {
    match command {
        EmacsBuiltin::ForwardChar => char_after(buf, clamped(buf, point)),
        EmacsBuiltin::BackwardChar => char_before(buf, clamped(buf, point)),
        EmacsBuiltin::NextLine => row_after(buf, clamped(buf, point)),
        EmacsBuiltin::PreviousLine => row_before(buf, clamped(buf, point)),
        EmacsBuiltin::ForwardWord => word_end_after(buf, point),
        EmacsBuiltin::BackwardWord => word_start_before(buf, point),
        EmacsBuiltin::MoveBeginningOfLine => Pos { row: point.row, col: 0 },
        EmacsBuiltin::MoveEndOfLine => Pos {
            row: clamped(buf, point).row,
            col: row_len(buf, clamped(buf, point).row),
        },
        EmacsBuiltin::ScrollUp => clamped(
            buf,
            Pos {
                row: if point.row + page < u32::MAX {
                    (point.row + page) as u32
                } else {
                    u32::MAX
                },
                col: point.col,
            },
        ),
        EmacsBuiltin::ScrollDown => clamped(
            buf,
            Pos {
                row: if point.row > page {
                    (point.row - page) as u32
                } else {
                    0
                },
                col: point.col,
            },
        ),
        EmacsBuiltin::BeginningOfBuffer => buffer_beginning(),
        EmacsBuiltin::EndOfBuffer => end_of(buf),
        _ => point,
    }
}

/// The rows that a page motion moves: the height of the pane less two, at least one.
pub open spec fn page_rows<B>(pane: Option<PaneView<B>>) -> int {
    match pane {
        Some(PaneView { area: Some(area), .. }) if area.height > 2 => area.height - 2,
        _ => 1,
    }
}

pub open spec fn is_text_motion(command: EmacsBuiltin) -> bool {
    match command {
        EmacsBuiltin::ForwardChar
        | EmacsBuiltin::BackwardChar
        | EmacsBuiltin::NextLine
        | EmacsBuiltin::PreviousLine
        | EmacsBuiltin::ForwardWord
        | EmacsBuiltin::BackwardWord
        | EmacsBuiltin::MoveBeginningOfLine
        | EmacsBuiltin::MoveEndOfLine
        | EmacsBuiltin::ScrollUp
        | EmacsBuiltin::ScrollDown
        | EmacsBuiltin::BeginningOfBuffer
        | EmacsBuiltin::EndOfBuffer => true,
        _ => false,
    }
}

/// The marks after a pane's ring took a mark; a pane without a ring gets one of `max` marks.
pub open spec fn marked(
    marks: Seq<(u64, Seq<Mark>, usize)>,
    i: int,
    pane_id: u64,
    mark: Mark,
    max: usize,
) -> Seq<(u64, Seq<Mark>, usize)>
    decreases marks.len() - i,
{
    if i >= marks.len() {
        marks.push((pane_id, seq![mark], max))
    } else if marks[i].0 == pane_id {
        marks.update(
            i,
            (pane_id, at_most(seq![mark] + marks[i].1, marks[i].2 as nat), marks[i].2),
        )
    } else {
        marked(marks, i + 1, pane_id, mark, max)
    }
}

/// The bytes that type `text` into a terminal behind `erase` deletions.
pub open spec fn typed(text: Seq<char>, erase: nat, bracketed: bool) -> Seq<u8> {
    Seq::new(erase, |i: int| 0x7fu8) + (if bracketed {
        seq![0x1bu8, 0x5b, 0x32, 0x30, 0x30, 0x7e] + encode_utf8(text) + seq![
            0x1bu8,
            0x5b,
            0x32,
            0x30,
            0x31,
            0x7e,
        ]
    } else {
        encode_utf8(text)
    })
}

/// The bytes that type `text` into a terminal: `erase` deletions, then the text, framed where the
/// terminal asked for bracketed paste.
pub fn typed_bytes(text: &str, erase: usize, bracketed: bool) -> (r: Vec<u8>)
    ensures
        r@ == typed(text@, erase as nat, bracketed),
{
    let mut bytes: Vec<u8> = Vec::new();
    let mut i: usize = 0;
    while i < erase
        invariant
            i <= erase,
            bytes@ == Seq::new(i as nat, |i: int| 0x7fu8),
        decreases erase - i,
    {
        bytes.push(0x7f);
        assert(bytes@ =~= Seq::new((i + 1) as nat, |i: int| 0x7fu8));
        i += 1;
    }
    if bracketed {
        let open: Vec<u8> = vec![0x1b, 0x5b, 0x32, 0x30, 0x30, 0x7e];
        let close: Vec<u8> = vec![0x1b, 0x5b, 0x32, 0x30, 0x31, 0x7e];
        bytes.extend_from_slice(open.as_slice());
        bytes.extend_from_slice(text.as_bytes());
        bytes.extend_from_slice(close.as_slice());
    } else {
        bytes.extend_from_slice(text.as_bytes());
    }
    assert(bytes@ =~= typed(text@, erase as nat, bracketed));
    bytes
}

impl Layer {
    pub open spec fn says(self, message: Seq<char>) -> Layer {
        Layer { echo: Some(message), ..self }
    }

    pub open spec fn with_text(self, text: Session) -> Layer {
        Layer { text: Some(text), ..self }
    }

    /// The key would be taken if it were pressed; what a repeat or a release goes by.
    pub open spec fn would_take(self, key: TerminalKey) -> bool {
        ||| self.text is Some
        ||| self.quoted_insert
        ||| self.pending.len() > 0
        ||| canonical(key.modifiers.control, key.modifiers.alt, key.code) matches Some(chord)
            && stack_looked_up(self.maps.stack(self.context()), seq![chord]) !is Unbound
    }

    /// After a point moved: the point, and the pane following it.
    pub open spec fn pointed<B: TextBuffer>(self, env: &Surroundings<B>, point: Pos) -> (
        Layer,
        Effect,
    ) {
        let text = self.text->0;
        (
            self.with_text(Session { point, ..text }),
            scroll_effect(env.pane(text.pane_id), text.pane_id, point),
        )
    }

    /// After a motion command in text mode; without a focused pane or a terminal nothing moves.
    pub open spec fn moved<B: TextBuffer>(self, env: &Surroundings<B>, command: EmacsBuiltin) -> (
        Layer,
        Effect,
    ) {
        match self.text {
            Some(text) if env.focused is Some && env.runs(text.pane_id) => {
                let pane = env.pane(text.pane_id);
                self.pointed(
                    env,
                    motion(&(pane->0.runtime->0).buffer, text.point, command, page_rows(pane)),
                )
            },
            _ => (self, Effect::Nothing),
        }
    }

    /// After going to a line, counted from one.
    pub open spec fn gone_to_line<B: TextBuffer>(self, env: &Surroundings<B>, line: int) -> (
        Layer,
        Effect,
    ) {
        match self.text {
            Some(text) if env.focused is Some && env.runs(text.pane_id) => {
                let pane = env.pane(text.pane_id);
                self.pointed(
                    env,
                    clamped(
                        &(pane->0.runtime->0).buffer,
                        Pos { row: (line - 1) as u32, col: 0 },
                    ),
                )
            },
            _ => (self, Effect::Nothing),
        }
    }

    /// After a key at the goto-line prompt.
    pub open spec fn prompted<B: TextBuffer>(self, env: &Surroundings<B>, key: TerminalKey) -> (
        Layer,
        Effect,
    ) {
        let text = self.text->0;
        let input = text.goto_line->0;
        let plain = !key.modifiers.control && !key.modifiers.alt;
        let closed = self.with_text(Session { goto_line: None, ..text });
        match key.code {
            KeyCode::Char(c) if crate::text::is_digit(c) && plain => (
                self.with_text(Session { goto_line: Some(input.push(c)), ..text }),
                Effect::Nothing,
            ),
            KeyCode::Backspace if plain => (
                self.with_text(
                    Session {
                        goto_line: Some(
                            if input.len() > 0 {
                                input.drop_last()
                            } else {
                                input
                            },
                        ),
                        ..text
                    },
                ),
                Effect::Nothing,
            ),
            KeyCode::Enter => match parsed_unsigned(input, u32::MAX as nat) {
                Some(line) if line > 0 => closed.gone_to_line(env, line as int),
                _ => (closed, Effect::Nothing),
            },
            KeyCode::Esc => (closed, Effect::Nothing),
            KeyCode::Char('g') if key.modifiers.control => (closed, Effect::Nothing),
            _ => (self, Effect::Nothing),
        }
    }

    /// Where text mode begins in a pane: at its visible cursor, else at the left of its last row.
    pub open spec fn entry_point<B: TextBuffer>(
        runtime: PaneRuntime<B>,
        area: PaneArea,
        m: ScrollMetrics,
    ) -> Pos {
        let (row, col): (int, u16) = match runtime.cursor {
            Some(cursor) if cursor.visible => (
                if cursor.y > area.y {
                    cursor.y - area.y
                } else {
                    0
                },
                if cursor.x > area.x {
                    (cursor.x - area.x) as u16
                } else {
                    0
                },
            ),
            _ => (area.height - 1, 0),
        };
        clamped(&runtime.buffer, Pos { row: (top_row(m) + row) as u32, col })
    }

    /// After text mode was asked for: the focused pane needs an area, a scroll position and a
    /// terminal.
    pub open spec fn entered<B: TextBuffer>(self, env: &Surroundings<B>) -> Layer {
        match env.focused {
            Some(id) => match env.pane(id) {
                Some(PaneView { area: Some(area), metrics: Some(m), runtime: Some(runtime), .. })
                    if area.width > 0 && area.height > 0 => self.with_text(
                    Session {
                        pane_id: id,
                        point: Self::entry_point(runtime, area, m),
                        mark: None,
                        mark_active: false,
                        entry_offset_from_bottom: m.offset_from_bottom,
                        goto_line: None,
                        isearch: None,
                    },
                ),
                _ => self,
            },
            None => self,
        }
    }

    /// After the mark was set at the point.
    pub open spec fn with_mark(self) -> Layer {
        match self.text {
            Some(text) => Layer {
                marks: marked(
                    self.marks,
                    0,
                    text.pane_id,
                    (text.point.row, text.point.col),
                    self.mark_ring_max,
                ),
                ..self.with_text(
                    Session { mark: Some(text.point), mark_active: true, ..text },
                ).says("Mark set"@)
            },
            None => self,
        }
    }

    /// After point and mark changed places.
    pub open spec fn exchanged<B: TextBuffer>(self, env: &Surroundings<B>) -> (Layer, Effect) {
        match self.text {
            Some(text) => match text.mark {
                Some(mark) => (
                    self.with_text(
                        Session { mark: Some(text.point), point: mark, mark_active: true, ..text },
                    ),
                    scroll_effect(env.pane(text.pane_id), text.pane_id, mark),
                ),
                None => (self.says("No mark set in this buffer"@), Effect::Nothing),
            },
            None => (self, Effect::Nothing),
        }
    }

    /// Saving the region: what is left to read of the terminal, if anything.
    pub open spec fn saving<B: TextBuffer>(self, env: &Surroundings<B>) -> (Layer, Effect) {
        match self.text {
            Some(text) if env.focused is Some => if !text.mark_active {
                (self.says("The mark is not active now"@), Effect::Nothing)
            } else {
                match text.mark {
                    Some(mark) => {
                        let (start, end) = if mark.at_or_before(text.point) {
                            (mark, text.point)
                        } else {
                            (text.point, mark)
                        };
                        match env.pane(text.pane_id) {
                            Some(PaneView { runtime: Some(PaneRuntime { columns: Some(cols), .. }), .. })
                                if start.before(end) => (
                                self,
                                Effect::ReadRegion {
                                    pane_id: text.pane_id,
                                    start,
                                    end: last_included(end, cols),
                                },
                            ),
                            _ => (self.says("Empty region"@), Effect::Nothing),
                        }
                    },
                    None => (self, Effect::Nothing),
                }
            },
            _ => (self, Effect::Nothing),
        }
    }

    /// After the terminal side read a region: a kill, and the text for the clipboard.
    pub open spec fn region_killed(self, content: Option<Seq<char>>) -> (Layer, Option<Seq<char>>) {
        match content {
            None => (self.says("Empty region"@), None),
            Some(text) => (
                Layer {
                    kills: self.killed(text),
                    yank_index: 0,
                    text: match self.text {
                        Some(session) => Some(Session { mark_active: false, ..session }),
                        None => None,
                    },
                    ..self
                },
                if self.clipboard_sync {
                    Some(text)
                } else {
                    None
                },
            ),
        }
    }

    /// The kills after one more: an empty text and the newest one again change nothing.
    pub open spec fn killed(self, text: Seq<char>) -> Seq<Seq<char>> {
        if text.len() == 0 || (self.kills.len() > 0 && self.kills[0] == text) {
            self.kills
        } else {
            at_most(seq![text] + self.kills, self.kill_ring_max as nat)
        }
    }

    /// Typing a kill into the focused pane.
    pub open spec fn typing<B>(self, env: &Surroundings<B>, text: Seq<char>, erase: nat) -> Effect {
        match env.focused {
            Some(id) => match env.pane(id) {
                Some(PaneView { runtime: Some(runtime), .. }) => Effect::Type {
                    pane_id: id,
                    bytes: typed(text, erase, runtime.bracketed_paste),
                    chars: text.len() as usize,
                },
                _ => Effect::Nothing,
            },
            None => Effect::Nothing,
        }
    }

    /// A live yank: the clipboard's text first becomes a kill when it is followed and new; then
    /// the newest kill is typed.
    pub open spec fn yanked<B>(self, env: &Surroundings<B>, clipboard: Option<Seq<char>>) -> (
        Layer,
        Effect,
    ) {
        let kills = match clipboard {
            Some(clip) if self.clipboard_sync => self.killed(clip),
            _ => self.kills,
        };
        let after = Layer { kills, yank_index: 0, ..self };
        if kills.len() == 0 {
            (after.says("Kill ring is empty"@), Effect::Nothing)
        } else {
            (after, after.typing(env, kills[0], 0))
        }
    }

    /// A live yank-pop: right after a yank in the same pane, the next older kill takes its place.
    pub open spec fn yank_popped<B>(self, env: &Surroundings<B>) -> (Layer, Effect) {
        let after = Layer { last_yank: None, ..self };
        match (self.last_yank, env.focused) {
            (None, _) => (after.says("Previous command was not a yank"@), Effect::Nothing),
            (Some(_), None) => (after, Effect::Nothing),
            (Some(last), Some(id)) => if id != last.pane_id {
                (after.says("Previous command was not a yank"@), Effect::Nothing)
            } else if self.kills.len() == 0 {
                (after, Effect::Nothing)
            } else {
                let next = (self.yank_index + 1) % (self.kills.len() as int);
                (
                    Layer { yank_index: next as usize, ..after },
                    self.typing(env, self.kills[next], last.chars as nat),
                )
            },
        }
    }

    /// After a builtin.
    pub open spec fn ran<B: TextBuffer>(self, env: &Surroundings<B>, command: EmacsBuiltin) -> (
        Layer,
        Effect,
    ) {
        let read_only = (self.says("Buffer is read-only"@), Effect::Nothing);
        match command {
            EmacsBuiltin::QuotedInsert => if self.text is Some {
                read_only
            } else {
                (Layer { quoted_insert: true, ..self.says("C-q-"@) }, Effect::Nothing)
            },
            EmacsBuiltin::KeyboardQuit => (
                Layer {
                    pending: Seq::empty(),
                    text: match self.text {
                        Some(text) => Some(Session { mark_active: false, ..text }),
                        None => None,
                    },
                    ..self.says("Quit"@)
                },
                Effect::Nothing,
            ),
            EmacsBuiltin::TextMode => (
                if self.text is None {
                    self.entered(env)
                } else {
                    self
                },
                Effect::Nothing,
            ),
            EmacsBuiltin::ExitTextMode => match self.text {
                Some(text) => (
                    Layer { text: None, ..self },
                    Effect::Scroll {
                        pane_id: text.pane_id,
                        offset: text.entry_offset_from_bottom,
                    },
                ),
                None => (self, Effect::Nothing),
            },
            EmacsBuiltin::SetMark => (self.with_mark(), Effect::Nothing),
            EmacsBuiltin::ExchangePointAndMark => self.exchanged(env),
            EmacsBuiltin::KillRingSave | EmacsBuiltin::KillRegion => self.saving(env),
            EmacsBuiltin::Yank => if self.text is Some {
                read_only
            } else {
                (self, Effect::Yank)
            },
            EmacsBuiltin::YankPop => if self.text is Some {
                read_only
            } else {
                self.yank_popped(env)
            },
            EmacsBuiltin::GotoLine => (
                match self.text {
                    Some(text) => self.with_text(
                        Session { goto_line: Some(Seq::empty()), ..text },
                    ),
                    None => self,
                },
                Effect::Nothing,
            ),
            EmacsBuiltin::MoveTabLeft => (self, tab_moved(env.tabs, false)),
            EmacsBuiltin::MoveTabRight => (self, tab_moved(env.tabs, true)),
            _ => if is_text_motion(command) {
                self.moved(env, command)
            } else {
                (
                    self.says(builtin_name(command) + " is not implemented yet"@),
                    Effect::Nothing,
                )
            },
        }
    }

    /// After a command. Any but a yank ends the chance of a yank-pop.
    pub open spec fn executed<B: TextBuffer>(
        self,
        env: &Surroundings<B>,
        command: EmacsCommand,
        prefix: Option<i64>,
    ) -> (Layer, Effect) {
        let before = if command == EmacsCommand::Builtin(EmacsBuiltin::Yank) || command
            == EmacsCommand::Builtin(EmacsBuiltin::YankPop) {
            self
        } else {
            Layer { last_yank: None, ..self }
        };
        match command {
            EmacsCommand::Herdr(action) => (before, Effect::Navigate(prefixed(action, prefix))),
            EmacsCommand::Builtin(builtin) => before.ran(env, builtin),
        }
    }

    /// After a chord that is not quoted: whether it was taken comes first.
    pub open spec fn chorded<B: TextBuffer>(self, env: &Surroundings<B>, chord: Chord) -> (
        bool,
        (Layer, Effect),
    ) {
        let in_text = self.context() is Text;
        let seq = self.pending.push(chord);
        let quit = Chord { ctrl: true, meta: false, code: KeyCode::Char('g') };
        if self.pending.len() > 0 && chord == quit {
            (true, self.executed(env, EmacsCommand::Builtin(EmacsBuiltin::KeyboardQuit), None))
        } else {
            match stack_looked_up(self.maps.stack(self.context()), seq) {
                Lookup::Bound(command) => (
                    true,
                    (Layer { pending: Seq::empty(), ..self }).executed(env, command, None),
                ),
                Lookup::Prefix => (
                    true,
                    (
                        Layer { pending: seq, ..self.says(sequence_name(seq) + "-"@) },
                        Effect::Nothing,
                    ),
                ),
                Lookup::Unbound => {
                    let reset = Layer { pending: Seq::empty(), last_yank: None, ..self };
                    if in_text && seq.len() == 1 && chord.inserts() is Some {
                        (true, (reset.says("Buffer is read-only"@), Effect::Nothing))
                    } else if !in_text && seq.len() == 1 {
                        (false, (reset, Effect::Nothing))
                    } else {
                        (
                            true,
                            (reset.says(sequence_name(seq) + " is undefined"@), Effect::Nothing),
                        )
                    }
                },
            }
        }
    }

    /// After a press whose pane is settled.
    pub open spec fn pressed<B: TextBuffer>(self, env: &Surroundings<B>, key: TerminalKey) -> (
        bool,
        (Layer, Effect),
    ) {
        if self.quoted_insert {
            (
                true,
                (
                    Layer { quoted_insert: false, ..self },
                    match env.focused {
                        Some(id) if env.runs(id) => Effect::SendKey { pane_id: id, key },
                        _ => Effect::Nothing,
                    },
                ),
            )
        } else if self.text matches Some(text) && text.goto_line is Some {
            (true, self.prompted(env, key))
        } else {
            match canonical(key.modifiers.control, key.modifiers.alt, key.code) {
                Some(chord) => self.chorded(env, chord),
                None => (self.context() is Text, (self, Effect::Nothing)),
            }
        }
    }

    /// Text mode lost its pane: another one has the focus, or its terminal is gone.
    pub open spec fn stranded<B>(self, env: &Surroundings<B>) -> bool {
        self.text matches Some(text) && !(env.focused == Some(text.pane_id) && env.runs(
            text.pane_id,
        ))
    }

    /// After a key. A layer that is off, and a multiplexer overlay, let every key pass; releases,
    /// and repeats outside text mode, only follow what a press would do; everything else clears
    /// the echo area, ends a stranded text mode, and is a press.
    pub open spec fn keyed<B: TextBuffer>(self, env: &Surroundings<B>, key: TerminalKey) -> (
        bool,
        Option<(u64, usize)>,
        (Layer, Effect),
    ) {
        if !self.enabled || !env.terminal_mode {
            (false, None, (self, Effect::Nothing))
        } else if key.kind is Release || (key.kind is Repeat && self.text is None) {
            (self.would_take(key), None, (self, Effect::Nothing))
        } else {
            let quiet = Layer { echo: None, ..self };
            let settled = if self.stranded(env) {
                Layer { text: None, ..quiet }
            } else {
                quiet
            };
            let restored = if self.stranded(env) {
                Some((self.text->0.pane_id, self.text->0.entry_offset_from_bottom))
            } else {
                None
            };
            let (taken, after) = settled.pressed(env, key);
            (taken, restored, after)
        }
    }
}

/// The last position of a region that ends before `end`.
pub open spec fn last_included(end: Pos, cols: u16) -> Pos {
    if end.col > 0 {
        Pos { row: end.row, col: (end.col - 1) as u16 }
    } else {
        Pos {
            row: (end.row - 1) as u32,
            col: if cols > 0 {
                (cols - 1) as u16
            } else {
                0
            },
        }
    }
}

/// A navigate action with its index from the prefix argument, which counts from one.
pub open spec fn prefixed(action: NavigateAction, prefix: Option<i64>) -> NavigateAction {
    let index = match prefix {
        Some(p) if p > 1 => (p - 1) as usize,
        _ => 0,
    };
    match action {
        NavigateAction::SwitchWorkspace(_) => NavigateAction::SwitchWorkspace(index),
        NavigateAction::SwitchTab(_) => NavigateAction::SwitchTab(index),
        NavigateAction::FocusAgent(_) => NavigateAction::FocusAgent(index),
        other => other,
    }
}

/// Moving the active tab one place, not past the ends.
pub open spec fn tab_moved(tabs: Option<(usize, usize)>, right: bool) -> Effect {
    match tabs {
        Some((source, count)) => if right {
            if source + 1 < count {
                Effect::MoveTab { source, insert: (source + 2) as usize }
            } else {
                Effect::Nothing
            }
        } else if source > 0 {
            Effect::MoveTab { source, insert: (source - 1) as usize }
        } else {
            Effect::Nothing
        },
        None => Effect::Nothing,
    }
}

/// A navigate action with its index from the prefix argument.
pub fn with_prefix(action: NavigateAction, prefix: Option<i64>) -> (r: NavigateAction)
    ensures
        r == prefixed(action, prefix),
{
    if !herdr_action_is_indexed(action) {
        return action;
    }
    let index: usize = match prefix {
        Some(p) => if p > 1 {
            (p - 1) as usize
        } else {
            0
        },
        None => 0,
    };
    match action {
        NavigateAction::SwitchWorkspace(_) => NavigateAction::SwitchWorkspace(index),
        NavigateAction::SwitchTab(_) => NavigateAction::SwitchTab(index),
        NavigateAction::FocusAgent(_) => NavigateAction::FocusAgent(index),
        other => other,
    }
}

/// Where the active tab goes when it moves one place, not past the ends.
pub fn move_tab(tabs: Option<(usize, usize)>, right: bool) -> (r: EmacsEffect)
    ensures
        r@ == tab_moved(tabs, right),
{
    match tabs {
        Some((source, count)) => if right {
            if count > 0 && source < count - 1 {
                EmacsEffect::MoveTab { source, insert: source + 2 }
            } else {
                EmacsEffect::Nothing
            }
        } else if source > 0 {
            EmacsEffect::MoveTab { source, insert: source - 1 }
        } else {
            EmacsEffect::Nothing
        },
        None => EmacsEffect::Nothing,
    }
}

fn message(parts: &str, rest: &str) -> (r: String)
    ensures
        r@ == parts@ + rest@,
{
    let mut out = parts.to_owned();
    out.append(rest);
    out
}

fn copied_chords(seq: &Vec<Chord>) -> (r: Vec<Chord>)
    ensures
        r@ == seq@,
{
    let mut out: Vec<Chord> = Vec::new();
    out.extend_from_slice(seq.as_slice());
    assert(out@ =~= seq@);
    out
}

fn text_point<B: TextBuffer>(
    buf: &B,
    point: Pos,
    command: EmacsBuiltin,
    page: u32,
) -> (r: Pos)
    requires
        point.row < u32::MAX,
    ensures
        r == motion(buf, point, command, page as int),
        r.row < u32::MAX,
{
    match command {
        EmacsBuiltin::ForwardChar => forward_char(buf, point),
        EmacsBuiltin::BackwardChar => backward_char(buf, point),
        EmacsBuiltin::NextLine => next_line(buf, point),
        EmacsBuiltin::PreviousLine => previous_line(buf, point),
        EmacsBuiltin::ForwardWord => {
            proof {
                crate::emacs::text_mode::motions_stay_inside(buf, point);
            }
            forward_word(buf, point)
        },
        EmacsBuiltin::BackwardWord => {
            proof {
                crate::emacs::text_mode::motions_stay_inside(buf, point);
            }
            backward_word(buf, point)
        },
        EmacsBuiltin::MoveBeginningOfLine => line_beginning(point),
        EmacsBuiltin::MoveEndOfLine => line_end(buf, point),
        EmacsBuiltin::ScrollUp => {
            let row: u32 = if page < u32::MAX - point.row {
                point.row + page
            } else {
                u32::MAX
            };
            clamp(buf, Pos { row, col: point.col })
        },
        EmacsBuiltin::ScrollDown => {
            let row: u32 = if point.row > page {
                point.row - page
            } else {
                0
            };
            clamp(buf, Pos { row, col: point.col })
        },
        EmacsBuiltin::BeginningOfBuffer => buffer_beginning(),
        EmacsBuiltin::EndOfBuffer => buffer_end(buf),
        _ => point,
    }
}

fn starting_point<B: TextBuffer>(
    runtime: &PaneRuntime<B>,
    area: PaneArea,
    m: ScrollMetrics,
) -> (r: Pos)
    requires
        area.height > 0,
        m.wf(),
    ensures
        r == Layer::entry_point(*runtime, area, m),
        r.row < u32::MAX,
{
    let top: u32 = (m.max_offset_from_bottom - m.offset_from_bottom) as u32;
    let mut row: u16 = area.height - 1;
    let mut col: u16 = 0;
    if let Some(cursor) = runtime.cursor {
        if cursor.visible {
            row = if cursor.y > area.y {
                cursor.y - area.y
            } else {
                0
            };
            col = if cursor.x > area.x {
                cursor.x - area.x
            } else {
                0
            };
        }
    }
    clamp(&runtime.buffer, Pos { row: top + row as u32, col })
}

impl EmacsState {
    fn say(&mut self, text: &str)
        requires
            old(self).wf(),
        ensures
            final(self).wf(),
            final(self).layer() == old(self).layer().says(text@),
    {
        self.echo = Some(text.to_owned());
    }

    /// Whether a key would be taken if it were pressed.
    pub fn emacs_would_consume(&self, key: TerminalKey) -> (r: bool)
        ensures
            r == self.layer().would_take(key),
    {
        if self.text_mode.is_some() || self.quoted_insert || self.pending.len() > 0 {
            return true;
        }
        match Chord::from_key(&key) {
            Some(chord) => {
                let seq: Vec<Chord> = vec![chord];
                assert(seq@ =~= seq![chord]);
                match self.keymaps.lookup(self.map_context(), seq.as_slice()) {
                    Lookup::Unbound => false,
                    _ => true,
                }
            },
            None => false,
        }
    }

    fn point_at<B: TextBuffer>(&mut self, env: &Surroundings<B>, point: Pos) -> (r: EmacsEffect)
        requires
            old(self).wf(),
            env.wf(),
            old(self).text_mode is Some,
            point.row < u32::MAX,
        ensures
            final(self).wf(),
            (final(self).layer(), r@) == old(self).layer().pointed(env, point),
    {
        let mut id: u64 = 0;
        if let Some(text) = &mut self.text_mode {
            text.point = point;
            id = text.pane_id;
        }
        scroll_into_view(env.find(id), id, point)
    }

    /// Runs a motion command of text mode.
    pub fn emacs_text_motion<B: TextBuffer>(
        &mut self,
        env: &Surroundings<B>,
        command: EmacsBuiltin,
    ) -> (r: EmacsEffect)
        requires
            old(self).wf(),
            env.wf(),
        ensures
            final(self).wf(),
            (final(self).layer(), r@) == old(self).layer().moved(env, command),
    {
        let (id, point) = match &self.text_mode {
            Some(text) => (text.pane_id, text.point),
            None => return EmacsEffect::Nothing,
        };
        if env.focused.is_none() {
            return EmacsEffect::Nothing;
        }
        let Some(pane) = env.find(id) else {
            return EmacsEffect::Nothing;
        };
        let Some(runtime) = &pane.runtime else {
            return EmacsEffect::Nothing;
        };
        let page: u32 = match pane.area {
            Some(area) => if area.height > 2 {
                (area.height - 2) as u32
            } else {
                1
            },
            None => 1,
        };
        let new_point = text_point(&runtime.buffer, point, command, page);
        self.point_at(env, new_point)
    }

    fn emacs_goto_line<B: TextBuffer>(&mut self, env: &Surroundings<B>, line: u32) -> (r:
        EmacsEffect)
        requires
            old(self).wf(),
            env.wf(),
            line > 0,
        ensures
            final(self).wf(),
            (final(self).layer(), r@) == old(self).layer().gone_to_line(env, line as int),
    {
        let id: u64 = match &self.text_mode {
            Some(text) => text.pane_id,
            None => return EmacsEffect::Nothing,
        };
        if env.focused.is_none() {
            return EmacsEffect::Nothing;
        }
        let Some(pane) = env.find(id) else {
            return EmacsEffect::Nothing;
        };
        let Some(runtime) = &pane.runtime else {
            return EmacsEffect::Nothing;
        };
        let point = clamp(&runtime.buffer, Pos { row: line - 1, col: 0 });
        self.point_at(env, point)
    }

    fn set_goto_line(&mut self, input: Option<String>)
        requires
            old(self).wf(),
            old(self).text_mode is Some,
        ensures
            final(self).wf(),
            final(self).layer() == old(self).layer().with_text(
                Session { goto_line: opt_text(input), ..(old(self).layer().text->0) },
            ),
    {
        if let Some(text) = &mut self.text_mode {
            text.goto_line = input;
        }
    }

    /// A key at the goto-line prompt.
    pub fn emacs_goto_line_key<B: TextBuffer>(&mut self, env: &Surroundings<B>, key: TerminalKey) -> (r:
        EmacsEffect)
        requires
            old(self).wf(),
            env.wf(),
            old(self).text_mode is Some,
            old(self).text_mode->0.goto_line is Some,
        ensures
            final(self).wf(),
            (final(self).layer(), r@) == old(self).layer().prompted(env, key),
    {
        let input: String = match &self.text_mode {
            Some(text) => match &text.goto_line {
                Some(input) => input.clone(),
                None => return EmacsEffect::Nothing,
            },
            None => return EmacsEffect::Nothing,
        };
        let plain = !key.modifiers.control && !key.modifiers.alt;
        match key.code {
            KeyCode::Char(c) => {
                if plain && is_decimal(c) {
                    let mut longer = input;
                    longer.push(c);
                    self.set_goto_line(Some(longer));
                } else if c == 'g' && key.modifiers.control {
                    self.set_goto_line(None);
                }
            },
            KeyCode::Backspace => {
                if plain {
                    let chars = chars_of(input.as_str());
                    if chars.len() > 0 {
                        let shorter = string_of(chars.as_slice(), 0, chars.len() - 1);
                        assert(shorter@ =~= input@.drop_last());
                        self.set_goto_line(Some(shorter));
                    } else {
                        self.set_goto_line(Some(input));
                    }
                }
            },
            KeyCode::Enter => {
                let line = parse_unsigned(input.as_str(), u32::MAX as u64);
                self.set_goto_line(None);
                if let Some(line) = line {
                    if line > 0 {
                        return self.emacs_goto_line(env, line as u32);
                    }
                }
            },
            KeyCode::Esc => self.set_goto_line(None),
            _ => {},
        }
        EmacsEffect::Nothing
    }

    fn emacs_enter_text_mode<B: TextBuffer>(&mut self, env: &Surroundings<B>)
        requires
            old(self).wf(),
            env.wf(),
        ensures
            final(self).wf(),
            final(self).layer() == old(self).layer().entered(env),
    {
        let Some(id) = env.focused else {
            return;
        };
        let Some(pane) = env.find(id) else {
            return;
        };
        let (Some(area), Some(metrics)) = (pane.area, pane.metrics) else {
            return;
        };
        let Some(runtime) = &pane.runtime else {
            return;
        };
        if area.width == 0 || area.height == 0 {
            return;
        }
        self.text_mode = Some(
            TextModeState {
                pane_id: id,
                point: starting_point(runtime, area, metrics),
                mark: None,
                mark_active: false,
                entry_offset_from_bottom: metrics.offset_from_bottom,
                goto_line: None,
                isearch: None,
            },
        );
    }

    fn push_mark(&mut self, pane_id: u64, mark: Mark)
        requires
            old(self).wf(),
        ensures
            final(self).wf(),
            final(self).layer() == (Layer {
                marks: marked(old(self).layer().marks, 0, pane_id, mark, old(self).mark_ring_max),
                ..old(self).layer()
            }),
    {
        let ghost before = self.layer().marks;
        let ghost max = self.mark_ring_max;
        let mut i: usize = 0;
        while i < self.mark_rings.len()
            invariant
                i <= self.mark_rings@.len(),
                *self == *old(self),
                self.wf(),
                before == marks_view(self.mark_rings@),
                max == self.mark_ring_max,
                marked(before, 0, pane_id, mark, max) == marked(before, i as int, pane_id, mark, max),
                forall|k: int| 0 <= k < i ==> (#[trigger] self.mark_rings@[k]).pane_id != pane_id,
            decreases self.mark_rings@.len() - i,
        {
            if self.mark_rings[i].pane_id == pane_id {
                assert(self.mark_rings@[i as int].ring.wf());
                self.mark_rings[i].ring.push(mark);
                assert(marks_view(self.mark_rings@) =~= marked(before, 0, pane_id, mark, max));
                return;
            }
            i += 1;
        }
        let mut ring = MarkRing::new(self.mark_ring_max);
        ring.push(mark);
        self.mark_rings.push(PaneMarks { pane_id, ring });
        assert(at_most(seq![mark] + Seq::<Mark>::empty(), max as nat) =~= seq![mark]);
        assert(marks_view(self.mark_rings@) =~= marked(before, 0, pane_id, mark, max));
    }

    fn emacs_set_mark(&mut self)
        requires
            old(self).wf(),
        ensures
            final(self).wf(),
            final(self).layer() == old(self).layer().with_mark(),
    {
        let (id, point) = match &mut self.text_mode {
            Some(text) => {
                text.mark = Some(text.point);
                text.mark_active = true;
                (text.pane_id, text.point)
            },
            None => return,
        };
        self.push_mark(id, (point.row, point.col));
        self.say("Mark set");
    }

    fn emacs_exchange_point_and_mark<B: TextBuffer>(&mut self, env: &Surroundings<B>) -> (r:
        EmacsEffect)
        requires
            old(self).wf(),
            env.wf(),
        ensures
            final(self).wf(),
            (final(self).layer(), r@) == old(self).layer().exchanged(env),
    {
        let (id, point, mark) = match &self.text_mode {
            Some(text) => (text.pane_id, text.point, text.mark),
            None => return EmacsEffect::Nothing,
        };
        let Some(mark) = mark else {
            self.say("No mark set in this buffer");
            return EmacsEffect::Nothing;
        };
        if let Some(text) = &mut self.text_mode {
            text.mark = Some(point);
            text.point = mark;
            text.mark_active = true;
        }
        scroll_into_view(env.find(id), id, mark)
    }

    fn emacs_kill_ring_save<B: TextBuffer>(&mut self, env: &Surroundings<B>) -> (r: EmacsEffect)
        requires
            old(self).wf(),
            env.wf(),
        ensures
            final(self).wf(),
            (final(self).layer(), r@) == old(self).layer().saving(env),
    {
        if env.focused.is_none() {
            return EmacsEffect::Nothing;
        }
        let (id, point, mark, active) = match &self.text_mode {
            Some(text) => (text.pane_id, text.point, text.mark, text.mark_active),
            None => return EmacsEffect::Nothing,
        };
        if !active {
            self.say("The mark is not active now");
            return EmacsEffect::Nothing;
        }
        let Some(mark) = mark else {
            return EmacsEffect::Nothing;
        };
        let (start, end) = if point.is_before(&mark) {
            (point, mark)
        } else {
            (mark, point)
        };
        if let Some(pane) = env.find(id) {
            if let Some(runtime) = &pane.runtime {
                if let Some(cols) = runtime.columns {
                    if start.is_before(&end) {
                        let last = if end.col > 0 {
                            Pos { row: end.row, col: end.col - 1 }
                        } else {
                            Pos {
                                row: end.row - 1,
                                col: if cols > 0 {
                                    cols - 1
                                } else {
                                    0
                                },
                            }
                        };
                        return EmacsEffect::ReadRegion { pane_id: id, start, end: last };
                    }
                }
            }
        }
        self.say("Empty region");
        EmacsEffect::Nothing
    }

    /// Takes the text of a region that was to be saved: it becomes the newest kill, the region is
    /// no longer active, and the text for the clipboard comes back when it is followed.
    pub fn region_read(&mut self, content: Option<String>) -> (r: Option<String>)
        requires
            old(self).wf(),
        ensures
            final(self).wf(),
            (final(self).layer(), opt_text(r)) == old(self).layer().region_killed(
                opt_text(content),
            ),
    {
        let Some(content) = content else {
            self.say("Empty region");
            return None;
        };
        let copy = content.clone();
        self.kill_ring.push(content);
        if let Some(text) = &mut self.text_mode {
            text.mark_active = false;
        }
        if self.clipboard_sync {
            Some(copy)
        } else {
            None
        }
    }

    fn type_text<B: TextBuffer>(&self, env: &Surroundings<B>, text: &str, erase: usize) -> (r:
        EmacsEffect)
        requires
            env.wf(),
        ensures
            r@ == self.layer().typing(env, text@, erase as nat),
    {
        let Some(id) = env.focused else {
            return EmacsEffect::Nothing;
        };
        let Some(pane) = env.find(id) else {
            return EmacsEffect::Nothing;
        };
        let Some(runtime) = &pane.runtime else {
            return EmacsEffect::Nothing;
        };
        EmacsEffect::Type {
            pane_id: id,
            bytes: typed_bytes(text, erase, runtime.bracketed_paste),
            chars: text.unicode_len(),
        }
    }

    /// Yanks into the focused pane, with the clipboard's text if it was read.
    pub fn emacs_yank_live<B: TextBuffer>(
        &mut self,
        env: &Surroundings<B>,
        clipboard: Option<String>,
    ) -> (r: EmacsEffect)
        requires
            old(self).wf(),
            env.wf(),
        ensures
            final(self).wf(),
            (final(self).layer(), r@) == old(self).layer().yanked(env, opt_text(clipboard)),
    {
        if self.clipboard_sync {
            self.kill_ring.sync_from_system(clipboard);
        }
        match self.kill_ring.yank() {
            Some(content) => self.type_text(env, content.as_str(), 0),
            None => {
                self.say("Kill ring is empty");
                EmacsEffect::Nothing
            },
        }
    }

    fn emacs_yank_pop_live<B: TextBuffer>(&mut self, env: &Surroundings<B>) -> (r: EmacsEffect)
        requires
            old(self).wf(),
            env.wf(),
        ensures
            final(self).wf(),
            (final(self).layer(), r@) == old(self).layer().yank_popped(env),
    {
        let taken = self.last_yank;
        self.last_yank = None;
        let Some(last) = taken else {
            self.say("Previous command was not a yank");
            return EmacsEffect::Nothing;
        };
        let Some(id) = env.focused else {
            return EmacsEffect::Nothing;
        };
        if id != last.pane_id {
            self.say("Previous command was not a yank");
            return EmacsEffect::Nothing;
        }
        match self.kill_ring.yank_pop() {
            Some(content) => self.type_text(env, content.as_str(), last.chars),
            None => EmacsEffect::Nothing,
        }
    }

    /// Remembers a yank that was typed into a pane, for a yank-pop to replace.
    pub fn yank_typed(&mut self, pane_id: u64, chars: usize)
        requires
            old(self).wf(),
        ensures
            final(self).wf(),
            final(self).layer() == (Layer {
                last_yank: Some(LastYank { pane_id, chars }),
                ..old(self).layer()
            }),
    {
        self.last_yank = Some(LastYank { pane_id, chars });
    }

    fn quit(&mut self)
        requires
            old(self).wf(),
        ensures
            final(self).wf(),
            final(self).layer() == (Layer {
                pending: Seq::empty(),
                text: match old(self).layer().text {
                    Some(text) => Some(Session { mark_active: false, ..text }),
                    None => None,
                },
                ..old(self).layer().says("Quit"@)
            }),
    {
        self.pending = Vec::new();
        if let Some(text) = &mut self.text_mode {
            text.mark_active = false;
        }
        self.say("Quit");
    }

    fn emacs_exit_text_mode(&mut self) -> (r: Option<(u64, usize)>)
        requires
            old(self).wf(),
        ensures
            final(self).wf(),
            final(self).layer() == (Layer { text: None, ..old(self).layer() }),
            r == match old(self).layer().text {
                Some(text) => Some((text.pane_id, text.entry_offset_from_bottom)),
                None => None,
            },
    {
        let r = match &self.text_mode {
            Some(text) => Some((text.pane_id, text.entry_offset_from_bottom)),
            None => None,
        };
        self.text_mode = None;
        r
    }

    /// Runs a builtin.
    pub fn execute_emacs_builtin<B: TextBuffer>(
        &mut self,
        env: &Surroundings<B>,
        builtin: EmacsBuiltin,
    ) -> (r: EmacsEffect)
        requires
            old(self).wf(),
            env.wf(),
        ensures
            final(self).wf(),
            (final(self).layer(), r@) == old(self).layer().ran(env, builtin),
    {
        match builtin {
            EmacsBuiltin::QuotedInsert => {
                if self.text_mode.is_some() {
                    self.say("Buffer is read-only");
                } else {
                    self.quoted_insert = true;
                    self.say("C-q-");
                }
                EmacsEffect::Nothing
            },
            EmacsBuiltin::KeyboardQuit => {
                self.quit();
                EmacsEffect::Nothing
            },
            EmacsBuiltin::TextMode => {
                if self.text_mode.is_none() {
                    self.emacs_enter_text_mode(env);
                }
                EmacsEffect::Nothing
            },
            EmacsBuiltin::ExitTextMode => match self.emacs_exit_text_mode() {
                Some((pane_id, offset)) => EmacsEffect::Scroll { pane_id, offset },
                None => EmacsEffect::Nothing,
            },
            EmacsBuiltin::ForwardChar
            | EmacsBuiltin::BackwardChar
            | EmacsBuiltin::NextLine
            | EmacsBuiltin::PreviousLine
            | EmacsBuiltin::ForwardWord
            | EmacsBuiltin::BackwardWord
            | EmacsBuiltin::MoveBeginningOfLine
            | EmacsBuiltin::MoveEndOfLine
            | EmacsBuiltin::ScrollUp
            | EmacsBuiltin::ScrollDown
            | EmacsBuiltin::BeginningOfBuffer
            | EmacsBuiltin::EndOfBuffer => self.emacs_text_motion(env, builtin),
            EmacsBuiltin::SetMark => {
                self.emacs_set_mark();
                EmacsEffect::Nothing
            },
            EmacsBuiltin::ExchangePointAndMark => self.emacs_exchange_point_and_mark(env),
            EmacsBuiltin::KillRingSave | EmacsBuiltin::KillRegion => self.emacs_kill_ring_save(env),
            EmacsBuiltin::Yank => {
                if self.text_mode.is_some() {
                    self.say("Buffer is read-only");
                    EmacsEffect::Nothing
                } else {
                    EmacsEffect::Yank
                }
            },
            EmacsBuiltin::YankPop => {
                if self.text_mode.is_some() {
                    self.say("Buffer is read-only");
                    EmacsEffect::Nothing
                } else {
                    self.emacs_yank_pop_live(env)
                }
            },
            EmacsBuiltin::GotoLine => {
                if self.text_mode.is_some() {
                    self.set_goto_line(Some(String::new()));
                }
                EmacsEffect::Nothing
            },
            EmacsBuiltin::MoveTabLeft => move_tab(env.tabs, false),
            EmacsBuiltin::MoveTabRight => move_tab(env.tabs, true),
            _ => {
                let text = message(builtin.name(), " is not implemented yet");
                self.say(text.as_str());
                EmacsEffect::Nothing
            },
        }
    }

    /// Runs a command. `prefix` is the universal argument.
    pub fn execute_emacs_command<B: TextBuffer>(
        &mut self,
        env: &Surroundings<B>,
        command: EmacsCommand,
        prefix: Option<i64>,
    ) -> (r: EmacsEffect)
        requires
            old(self).wf(),
            env.wf(),
        ensures
            final(self).wf(),
            (final(self).layer(), r@) == old(self).layer().executed(env, command, prefix),
    {
        match command {
            EmacsCommand::Builtin(EmacsBuiltin::Yank) => {},
            EmacsCommand::Builtin(EmacsBuiltin::YankPop) => {},
            _ => {
                self.last_yank = None;
            },
        }
        match command {
            EmacsCommand::Herdr(action) => EmacsEffect::Navigate(with_prefix(action, prefix)),
            EmacsCommand::Builtin(builtin) => self.execute_emacs_builtin(env, builtin),
        }
    }

    fn chord<B: TextBuffer>(&mut self, env: &Surroundings<B>, chord: Chord) -> (r: (
        bool,
        EmacsEffect,
    ))
        requires
            old(self).wf(),
            env.wf(),
        ensures
            final(self).wf(),
            (r.0, (final(self).layer(), r.1@)) == old(self).layer().chorded(env, chord),
    {
        let ctx = self.map_context();
        let in_text = ctx == MapContext::Text;
        if self.pending.len() > 0 && chord == Chord::ctrl('g') {
            let effect = self.execute_emacs_command(
                env,
                EmacsCommand::Builtin(EmacsBuiltin::KeyboardQuit),
                None,
            );
            return (true, effect);
        }
        let mut seq = copied_chords(&self.pending);
        seq.push(chord);
        match self.keymaps.lookup(ctx, seq.as_slice()) {
            Lookup::Bound(command) => {
                self.pending = Vec::new();
                (true, self.execute_emacs_command(env, command, None))
            },
            Lookup::Prefix => {
                let text = message(format_seq(seq.as_slice()).as_str(), "-");
                self.say(text.as_str());
                self.pending = seq;
                (true, EmacsEffect::Nothing)
            },
            Lookup::Unbound => {
                self.pending = Vec::new();
                self.last_yank = None;
                let single = seq.len() == 1;
                if in_text && single && chord.is_self_insert() {
                    self.say("Buffer is read-only");
                    (true, EmacsEffect::Nothing)
                } else if !in_text && single {
                    (false, EmacsEffect::Nothing)
                } else {
                    let text = message(format_seq(seq.as_slice()).as_str(), " is undefined");
                    self.say(text.as_str());
                    (true, EmacsEffect::Nothing)
                }
            },
        }
    }

    fn press<B: TextBuffer>(&mut self, env: &Surroundings<B>, key: TerminalKey) -> (r: (
        bool,
        EmacsEffect,
    ))
        requires
            old(self).wf(),
            env.wf(),
        ensures
            final(self).wf(),
            (r.0, (final(self).layer(), r.1@)) == old(self).layer().pressed(env, key),
    {
        if self.quoted_insert {
            self.quoted_insert = false;
            let effect = match env.focused {
                Some(id) => if env.is_running(id) {
                    EmacsEffect::SendKey { pane_id: id, key }
                } else {
                    EmacsEffect::Nothing
                },
                None => EmacsEffect::Nothing,
            };
            return (true, effect);
        }
        let prompting = match &self.text_mode {
            Some(text) => text.goto_line.is_some(),
            None => false,
        };
        if prompting {
            return (true, self.emacs_goto_line_key(env, key));
        }
        match Chord::from_key(&key) {
            Some(chord) => self.chord(env, chord),
            None => (self.map_context() == MapContext::Text, EmacsEffect::Nothing),
        }
    }

    /// Takes a key, or lets it pass to the focused pane.
    pub fn emacs_intercept_key<B: TextBuffer>(&mut self, env: &Surroundings<B>, key: TerminalKey) -> (r:
        KeyOutcome)
        requires
            old(self).wf(),
            env.wf(),
        ensures
            final(self).wf(),
            (r.consumed, r.restored, (final(self).layer(), r.effect@)) == old(self).layer().keyed(
                env,
                key,
            ),
    {
        if !self.enabled || !env.terminal_mode {
            return KeyOutcome { consumed: false, restored: None, effect: EmacsEffect::Nothing };
        }
        let follows = match key.kind {
            KeyEventKind::Press => false,
            KeyEventKind::Repeat => self.text_mode.is_none(),
            KeyEventKind::Release => true,
        };
        if follows {
            return KeyOutcome {
                consumed: self.emacs_would_consume(key),
                restored: None,
                effect: EmacsEffect::Nothing,
            };
        }
        self.echo = None;
        let stranded = match &self.text_mode {
            Some(text) => match env.focused {
                Some(id) => id != text.pane_id || !env.is_running(id),
                None => true,
            },
            None => false,
        };
        let restored = if stranded {
            self.emacs_exit_text_mode()
        } else {
            None
        };
        let (consumed, effect) = self.press(env, key);
        KeyOutcome { consumed, restored, effect }
    }
}

fn is_decimal(c: char) -> (r: bool)
    ensures
        r == crate::text::is_digit(c),
{
    let code: u32 = c as u32;
    '0' as u32 <= code && code <= '9' as u32
}

/// A layer that is off takes no key and changes nothing.
pub proof fn disabled_layer_takes_no_key<B: TextBuffer>(
    layer: Layer,
    env: Surroundings<B>,
    key: TerminalKey,
)
    requires
        !layer.enabled,
    ensures
        layer.keyed(&env, key) == (false, None::<(u64, usize)>, (layer, Effect::Nothing)),
{
}

/// In live mode, with nothing pending, a key that no map knows goes to the pane, and nothing is
/// said about it.
pub proof fn unbound_live_keys_pass<B: TextBuffer>(
    layer: Layer,
    env: Surroundings<B>,
    key: TerminalKey,
    chord: Chord,
)
    requires
        layer.enabled,
        env.terminal_mode,
        key.kind is Press,
        layer.context() is Live,
        !layer.quoted_insert,
        layer.pending.len() == 0,
        canonical(key.modifiers.control, key.modifiers.alt, key.code) == Some(chord),
        stack_looked_up(layer.maps.stack(MapContext::Live), seq![chord]) is Unbound,
    ensures
        ({
            let (taken, restored, (after, effect)) = layer.keyed(&env, key);
            !taken && restored is None && effect is Nothing && after.echo is None
        }),
{
    let quiet = Layer { echo: None, ..layer };
    assert(quiet.pending.push(chord) =~= seq![chord]);
}

/// In text mode a key that would insert a character is taken and only reported.
pub proof fn text_mode_is_read_only<B: TextBuffer>(
    layer: Layer,
    env: Surroundings<B>,
    chord: Chord,
)
    requires
        layer.context() is Text,
        layer.pending.len() == 0,
        chord.inserts() is Some,
        stack_looked_up(layer.maps.stack(MapContext::Text), seq![chord]) is Unbound,
    ensures
        ({
            let (taken, (after, effect)) = layer.chorded(&env, chord);
            taken && effect is Nothing && after.echo == Some("Buffer is read-only"@)
        }),
{
    assert(layer.pending.push(chord) =~= seq![chord]);
}

/// `C-g` gives up a chord sequence in progress, whatever the maps say.
pub proof fn quit_cancels_a_pending_sequence<B: TextBuffer>(layer: Layer, env: Surroundings<B>)
    requires
        layer.pending.len() > 0,
    ensures
        ({
            let quit = Chord { ctrl: true, meta: false, code: KeyCode::Char('g') };
            let (taken, (after, effect)) = layer.chorded(&env, quit);
            &&& taken && effect is Nothing
            &&& after.pending.len() == 0
            &&& after.echo == Some("Quit"@)
            &&& after.text matches Some(text) ==> !text.mark_active
        }),
{
}

/// What a region holds when it is saved is what the next yank types.
pub proof fn saved_region_is_yanked<B: TextBuffer>(
    layer: Layer,
    env: Surroundings<B>,
    content: Seq<char>,
    id: u64,
)
    requires
        content.len() > 0,
        layer.kill_ring_max >= 1,
        env.focused == Some(id),
        env.runs(id),
    ensures
        ({
            let (saved, _) = layer.region_killed(Some(content));
            let (_, effect) = saved.yanked(&env, None);
            effect == Effect::Type {
                pane_id: id,
                bytes: typed(content, 0, env.pane(id)->0.runtime->0.bracketed_paste),
                chars: content.len() as usize,
            }
        }),
{
}

/// A tab that moves ends one place over: the slot before removal counts the tab itself.
pub proof fn moved_tab_goes_one_place(source: usize, count: usize, right: bool)
    requires
        source < count,
    ensures
        match tab_moved(Some((source, count)), right) {
            Effect::MoveTab { source: from, insert } => {
                let target: int = if from < insert {
                    insert - 1
                } else {
                    insert as int
                };
                from == source && 0 <= target < count && target == (if right {
                    source + 1
                } else {
                    source - 1
                })
            },
            _ => if right {
                source + 1 == count
            } else {
                source == 0
            },
        },
{
}

/// Exchanging point and mark twice leaves both where they were.
pub proof fn exchanging_twice_restores<B: TextBuffer>(layer: Layer, env: Surroundings<B>)
    requires
        layer.text is Some,
        layer.text->0.mark is Some,
    ensures
        ({
            let (once, _) = layer.exchanged(&env);
            let (twice, _) = once.exchanged(&env);
            &&& twice.text->0.point == layer.text->0.point
            &&& twice.text->0.mark == layer.text->0.mark
            &&& twice.text->0.mark_active
        }),
{
}

} // verus!
