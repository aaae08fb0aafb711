//! Keys as they come in, from the keymaps to what happens in the panes.

use herdr::emacs::commands::NavigateAction;
use herdr::emacs::dispatch::{CursorState, EmacsEffect, PaneArea, PaneRuntime, PaneView};
use herdr::emacs::dispatch::{ScrollMetrics, Surroundings};
use herdr::emacs::render::{pane_overlay, text_mode_overlay};
use herdr::emacs::state::{EmacsConfig, EmacsState};
use herdr::emacs::text_mode::{Lines, Pos};
use herdr::input::{KeyCode, KeyModifiers, TerminalKey};
use herdr::order::TextPair;

const PANE: u64 = 7;
const OTHER: u64 = 8;
const HEIGHT: u16 = 10;
const FIVE_LINES: &[u8] = b"alpha\r\nbravo six\r\ncharlie\r\ndelta\r\necho\r\n";

fn config(enabled: bool) -> EmacsConfig {
    EmacsConfig {
        enabled,
        claude_ax_screen_reader: false,
        clipboard_sync: false,
        kill_ring_max: 60,
        mark_ring_max: 16,
        keys: Vec::new(),
    }
}

/// A pane with its rows, its scroll position and what was sent to it.
struct Pane {
    id: u64,
    rows: Vec<String>,
    cursor_row: usize,
    offset: usize,
    running: bool,
    sent: Vec<u8>,
}

impl Pane {
    fn new(id: u64, bytes: &[u8]) -> Pane {
        let text = String::from_utf8(bytes.to_vec()).unwrap();
        let mut rows: Vec<String> = text.split("\r\n").map(|row| row.to_string()).collect();
        let cursor_row = rows.len() - 1;
        while rows.len() < HEIGHT as usize {
            rows.push(String::new());
        }
        Pane { id, rows, cursor_row, offset: 0, running: true, sent: Vec::new() }
    }

    fn metrics(&self) -> ScrollMetrics {
        ScrollMetrics {
            offset_from_bottom: self.offset,
            max_offset_from_bottom: self.rows.len() - HEIGHT as usize,
        }
    }

    fn text_between(&self, start: Pos, end: Pos) -> Option<String> {
        let mut rows: Vec<String> = Vec::new();
        for row in start.row..=end.row {
            let chars: Vec<char> = self.rows[row as usize].chars().collect();
            let from = if row == start.row { start.col as usize } else { 0 };
            let to = if row == end.row { end.col as usize + 1 } else { chars.len() };
            rows.push(chars[from.min(chars.len())..to.min(chars.len())].iter().collect());
        }
        let text = rows.join("\n");
        if text.is_empty() {
            None
        } else {
            Some(text)
        }
    }
}

/// The layer over one or two panes of an active workspace.
struct World {
    emacs: EmacsState,
    terminal_mode: bool,
    focused: u64,
    panes: Vec<Pane>,
    tabs: Vec<&'static str>,
    active_tab: usize,
    clipboard: Vec<String>,
    navigated: Vec<NavigateAction>,
}

impl World {
    fn new(bytes: &[u8]) -> World {
        World {
            emacs: EmacsState::from_config(&config(true)),
            terminal_mode: true,
            focused: PANE,
            panes: vec![Pane::new(PANE, bytes)],
            tabs: vec!["a"],
            active_tab: 0,
            clipboard: Vec::new(),
            navigated: Vec::new(),
        }
    }

    fn area() -> PaneArea {
        PaneArea { x: 0, y: 0, width: 40, height: HEIGHT }
    }

    fn surroundings(&self) -> Surroundings<Lines> {
        let panes = self.panes.iter().map(|pane| PaneView {
            pane_id: pane.id,
            area: Some(World::area()),
            metrics: Some(pane.metrics()),
            runtime: if pane.running {
                let top = pane.rows.len() - HEIGHT as usize;
                Some(PaneRuntime {
                    buffer: Lines { lines: pane.rows.clone() },
                    cursor: Some(CursorState {
                        x: 0,
                        y: (pane.cursor_row - top) as u16,
                        visible: true,
                    }),
                    columns: Some(40),
                    bracketed_paste: false,
                })
            } else {
                None
            },
        });
        Surroundings {
            terminal_mode: self.terminal_mode,
            focused: Some(self.focused),
            panes: panes.collect(),
            tabs: Some((self.active_tab, self.tabs.len())),
        }
    }

    fn pane(&mut self, id: u64) -> &mut Pane {
        self.panes.iter_mut().find(|pane| pane.id == id).unwrap()
    }

    fn send_key(&mut self, id: u64, key: TerminalKey) {
        let byte = match key.code {
            KeyCode::Char(c) if key.modifiers.control => c as u8 - 96,
            KeyCode::Char(c) => c as u8,
            KeyCode::Esc => 0x1b,
            _ => panic!("{key:?} is not sent in these tests"),
        };
        self.pane(id).sent.push(byte);
    }

    fn perform(&mut self, effect: EmacsEffect) {
        match effect {
            EmacsEffect::Nothing => {}
            EmacsEffect::Scroll { pane_id, offset } => self.pane(pane_id).offset = offset,
            EmacsEffect::SendKey { pane_id, key } => self.send_key(pane_id, key),
            EmacsEffect::Navigate(action) => self.navigated.push(action),
            EmacsEffect::MoveTab { source, insert } => {
                let tab = self.tabs.remove(source);
                let place = if insert > source { insert - 1 } else { insert };
                self.tabs.insert(place, tab);
                self.active_tab = place;
            }
            EmacsEffect::ReadRegion { pane_id, start, end } => {
                let content = self.pane(pane_id).text_between(start, end);
                if let Some(copied) = self.emacs.region_read(content) {
                    self.clipboard.push(copied);
                }
            }
            EmacsEffect::Yank => {
                let env = self.surroundings();
                let typed = self.emacs.emacs_yank_live(&env, None);
                self.perform(typed);
            }
            EmacsEffect::Type { pane_id, bytes, chars } => {
                self.pane(pane_id).sent.extend_from_slice(&bytes);
                self.emacs.yank_typed(pane_id, chars);
            }
        }
    }

    fn press(&mut self, key: TerminalKey) {
        let env = self.surroundings();
        let outcome = self.emacs.emacs_intercept_key(&env, key);
        if let Some((pane_id, offset)) = outcome.restored {
            self.pane(pane_id).offset = offset;
        }
        self.perform(outcome.effect);
        if !outcome.consumed {
            let id = self.focused;
            if self.pane(id).running {
                self.send_key(id, key);
            }
        }
    }

    /// Types legacy bytes: a control byte, a character, or either behind an escape.
    fn type_bytes(&mut self, bytes: &[u8]) {
        let mut i = 0;
        while i < bytes.len() {
            let meta = bytes[i] == 0x1b && i + 1 < bytes.len();
            if meta {
                i += 1;
            }
            let (code, control) = match bytes[i] {
                0x00 => (KeyCode::Char(' '), true),
                0x0d => (KeyCode::Enter, false),
                0x1b => (KeyCode::Esc, false),
                0x7f => (KeyCode::Backspace, false),
                byte if byte < 0x1b => (KeyCode::Char((byte + 96) as char), true),
                byte => (KeyCode::Char(byte as char), false),
            };
            i += 1;
            let modifiers = KeyModifiers { alt: meta, control, ..KeyModifiers::none() };
            self.press(TerminalKey::new(code, modifiers));
        }
    }

    fn sent(&mut self) -> Vec<u8> {
        std::mem::take(&mut self.pane(PANE).sent)
    }

    fn marks(&self, id: u64) -> Option<usize> {
        self.emacs.mark_rings.iter().find(|marks| marks.pane_id == id).map(|marks| marks.ring.len())
    }
}

fn enter_text_mode(app: &mut World) {
    app.type_bytes(&[0x18, b'[']); // C-x [
}

/// M-< C-SPC C-n C-e : the region covers "alpha\nbravo six".
fn select_first_two_lines(app: &mut World) {
    enter_text_mode(app);
    app.type_bytes(&[0x1b, b'<']); // M-<
    app.type_bytes(&[0x00]); // C-SPC
    app.type_bytes(&[0x0e, 0x05]); // C-n C-e
}

fn fifty_lines() -> Vec<u8> {
    (1..=50).flat_map(|i| format!("line {i}\r\n").into_bytes()).collect()
}

#[test]
fn c_x_b_opens_the_navigator() {
    let mut app = World::new(b"");
    app.type_bytes(&[0x18]); // C-x
    assert_eq!(app.emacs.pending.len(), 1);
    assert_eq!(app.emacs.echo.as_deref(), Some("C-x-"));
    app.type_bytes(&[b'b']);
    assert!(app.emacs.pending.is_empty());
    assert_eq!(app.navigated, vec![NavigateAction::OpenNavigator]);
    assert!(
        app.sent().is_empty(),
        "chord must not reach the pane"
    );
}

#[test]
fn plain_keys_pass_through_to_the_pane() {
    let mut app = World::new(b"");
    app.type_bytes(b"a");
    assert_eq!(app.sent(), b"a".to_vec());
}

#[test]
fn quoted_insert_sends_raw_c_x() {
    let mut app = World::new(b"");
    app.type_bytes(&[0x11]); // C-q
    assert!(app.emacs.quoted_insert);
    assert_eq!(app.emacs.echo.as_deref(), Some("C-q-"));
    app.type_bytes(&[0x18]); // C-x, sent literally
    assert!(!app.emacs.quoted_insert);
    assert_eq!(app.sent(), vec![0x18]);
    assert!(app.emacs.pending.is_empty());
}

#[test]
fn unbound_chord_reports_undefined_and_is_swallowed() {
    let mut app = World::new(b"");
    app.type_bytes(&[0x18, b'z']);
    assert_eq!(app.emacs.echo.as_deref(), Some("C-x z is undefined"));
    assert!(app.sent().is_empty());
}

#[test]
fn c_g_cancels_a_pending_chord() {
    let mut app = World::new(b"");
    app.type_bytes(&[0x18, 0x07]); // C-x C-g
    assert!(app.emacs.pending.is_empty());
    assert_eq!(app.emacs.echo.as_deref(), Some("Quit"));
    assert!(app.sent().is_empty());
}

#[test]
fn c_x_bracket_enters_text_mode_and_q_exits() {
    let mut app = World::new(FIVE_LINES);
    let pane: u64 = PANE;
    enter_text_mode(&mut app);
    let text = app.emacs.text_mode.as_ref().expect("text mode on");
    assert_eq!(text.pane_id, pane);
    assert!(app.emacs.owns_pane_cursor(pane));
    app.type_bytes(&[b'q']);
    assert!(app.emacs.text_mode.is_none());
    assert!(
        app.sent().is_empty(),
        "TEXT mode keys never reach the pane"
    );
}

#[test]
fn motions_move_point_over_scrollback() {
    let mut app = World::new(FIVE_LINES);
    enter_text_mode(&mut app);
    // M-< : beginning of buffer
    app.type_bytes(&[0x1b, b'<']);
    let point = app.emacs.text_mode.as_ref().unwrap().point;
    assert_eq!((point.row, point.col), (0, 0));
    // C-f C-f -> col 2
    app.type_bytes(&[0x06, 0x06]);
    let point = app.emacs.text_mode.as_ref().unwrap().point;
    assert_eq!((point.row, point.col), (0, 2));
    // C-n -> row 1 (col clamps within "bravo six")
    app.type_bytes(&[0x0e]);
    let point = app.emacs.text_mode.as_ref().unwrap().point;
    assert_eq!((point.row, point.col), (1, 2));
    // C-e -> end of "bravo six"
    app.type_bytes(&[0x05]);
    let point = app.emacs.text_mode.as_ref().unwrap().point;
    assert_eq!((point.row, point.col), (1, 9));
    // M-b -> start of "six"
    app.type_bytes(&[0x1b, b'b']);
    let point = app.emacs.text_mode.as_ref().unwrap().point;
    assert_eq!((point.row, point.col), (1, 6));
}

#[test]
fn unbound_control_key_in_text_mode_is_undefined_not_read_only() {
    let mut app = World::new(FIVE_LINES);
    enter_text_mode(&mut app);
    app.type_bytes(&[0x14]); // C-t: bound nowhere
    assert_eq!(app.emacs.echo.as_deref(), Some("C-t is undefined"));
    assert!(app.sent().is_empty());
    assert!(app.emacs.text_mode.is_some(), "still in TEXT mode");
}

#[test]
fn unbound_meta_key_in_text_mode_is_undefined() {
    let mut app = World::new(FIVE_LINES);
    enter_text_mode(&mut app);
    app.type_bytes(&[0x1b, b'z']); // M-z
    assert_eq!(app.emacs.echo.as_deref(), Some("M-z is undefined"));
}

#[test]
fn self_inserting_key_in_text_mode_reports_read_only() {
    let mut app = World::new(FIVE_LINES);
    enter_text_mode(&mut app);
    app.type_bytes(&[b'x']);
    assert_eq!(app.emacs.echo.as_deref(), Some("Buffer is read-only"));
    app.type_bytes(&[b'5']);
    assert_eq!(app.emacs.echo.as_deref(), Some("Buffer is read-only"));
    assert!(app.sent().is_empty());
}

#[test]
fn unbound_sequence_in_text_mode_names_the_sequence() {
    let mut app = World::new(FIVE_LINES);
    enter_text_mode(&mut app);
    app.type_bytes(&[0x18, b'z']); // C-x z
    assert_eq!(app.emacs.echo.as_deref(), Some("C-x z is undefined"));
}

#[test]
fn unbound_single_key_in_live_mode_stays_silent_and_reaches_the_pane() {
    let mut app = World::new(b"");
    app.type_bytes(&[0x14]); // C-t
    assert_eq!(app.emacs.echo, None, "no echo: the agent owns it");
    assert_eq!(app.sent(), vec![0x14]);
}

#[test]
fn unbound_sequence_in_live_mode_is_undefined() {
    let mut app = World::new(b"");
    app.type_bytes(&[0x18, b'z']); // C-x z
    assert_eq!(app.emacs.echo.as_deref(), Some("C-x z is undefined"));
    assert!(app.sent().is_empty());
}

#[test]
fn c_spc_sets_mark_and_c_g_deactivates_it() {
    let mut app = World::new(FIVE_LINES);
    enter_text_mode(&mut app);
    app.type_bytes(&[0x1b, b'<']); // M-<
    app.type_bytes(&[0x00]); // C-SPC
    {
        let text = app.emacs.text_mode.as_ref().unwrap();
        assert_eq!(text.mark.map(|m| (m.row, m.col)), Some((0, 0)));
        assert!(text.mark_active);
    }
    assert_eq!(app.emacs.echo.as_deref(), Some("Mark set"));
    app.type_bytes(&[0x07]); // C-g
    let text = app.emacs.text_mode.as_ref().unwrap();
    assert!(!text.mark_active, "deactivated");
    assert_eq!(
        text.mark.map(|m| (m.row, m.col)),
        Some((0, 0)),
        "mark position survives deactivation (Emacs behavior)"
    );
}

#[test]
fn c_g_mid_chord_also_deactivates_the_mark() {
    let mut app = World::new(FIVE_LINES);
    enter_text_mode(&mut app);
    app.type_bytes(&[0x00]); // C-SPC
    assert!(app.emacs.text_mode.as_ref().unwrap().mark_active);
    app.type_bytes(&[0x18, 0x07]); // C-x C-g: quit mid-chord
    assert!(app.emacs.pending.is_empty(), "chord cancelled");
    assert_eq!(app.emacs.echo.as_deref(), Some("Quit"));
    assert!(
        !app.emacs.text_mode.as_ref().unwrap().mark_active,
        "keyboard-quit mid-chord deactivates the mark, like bound C-g"
    );
}

#[test]
fn c_x_c_x_exchanges_point_and_mark() {
    let mut app = World::new(FIVE_LINES);
    enter_text_mode(&mut app);
    app.type_bytes(&[0x1b, b'<']); // M-< : point (0,0)
    app.type_bytes(&[0x00]); // C-SPC : mark (0,0)
    app.type_bytes(&[0x0e, 0x06]); // C-n C-f : point (1,1)
    app.type_bytes(&[0x18, 0x18]); // C-x C-x
    let text = app.emacs.text_mode.as_ref().unwrap();
    assert_eq!((text.point.row, text.point.col), (0, 0));
    assert_eq!(text.mark.map(|m| (m.row, m.col)), Some((1, 1)));
    assert!(text.mark_active);
}

#[test]
fn every_mark_set_pushes_the_pane_mark_ring() {
    let mut app = World::new(FIVE_LINES);
    let pane: u64 = PANE;
    enter_text_mode(&mut app);
    app.type_bytes(&[0x00]); // C-SPC
    app.type_bytes(&[0x0e]); // C-n
    app.type_bytes(&[0x00]); // C-SPC
    assert_eq!(
        app.marks(pane),
        Some(2)
    );
}

#[test]
fn m_w_saves_region_to_kill_ring_and_clipboard() {
    let mut app = World::new(FIVE_LINES);
    app.emacs.clipboard_sync = true;
    select_first_two_lines(&mut app);
    app.type_bytes(&[0x1b, b'w']); // M-w
    assert_eq!(app.emacs.kill_ring.head(), Some("alpha\nbravo six"));
    assert_eq!(app.clipboard, vec!["alpha\nbravo six".to_string()]);
    let text = app.emacs.text_mode.as_ref().unwrap();
    assert!(!text.mark_active, "region deactivates after save");
    assert!(app.emacs.text_mode.is_some(), "still in TEXT mode");
}

#[test]
fn c_w_in_read_only_buffer_saves_like_m_w() {
    let mut app = World::new(FIVE_LINES);
    select_first_two_lines(&mut app);
    app.type_bytes(&[0x17]); // C-w
    assert_eq!(app.emacs.kill_ring.head(), Some("alpha\nbravo six"));
    assert!(!app.emacs.text_mode.as_ref().unwrap().mark_active);
}

#[test]
fn m_w_without_active_mark_complains() {
    let mut app = World::new(FIVE_LINES);
    enter_text_mode(&mut app);
    app.type_bytes(&[0x1b, b'w']); // M-w, no mark
    assert!(app.emacs.kill_ring.is_empty());
    assert_eq!(
        app.emacs.echo.as_deref(),
        Some("The mark is not active now")
    );
}

#[test]
fn c_y_in_text_mode_reports_read_only() {
    let mut app = World::new(FIVE_LINES);
    app.emacs.kill_ring.push("something".into());
    enter_text_mode(&mut app);
    app.type_bytes(&[0x19]); // C-y
    assert_eq!(app.emacs.echo.as_deref(), Some("Buffer is read-only"));
    assert!(app.sent().is_empty(), "nothing typed into the PTY");
}

#[test]
fn m_w_with_clipboard_sync_off_emits_no_clipboard_event() {
    let mut app = World::new(FIVE_LINES);
    assert!(!app.emacs.clipboard_sync, "fixture default is off");
    select_first_two_lines(&mut app);
    app.type_bytes(&[0x1b, b'w']); // M-w
    assert_eq!(app.emacs.kill_ring.head(), Some("alpha\nbravo six"));
    assert!(
        app.clipboard.is_empty(),
        "no ClipboardWrite when clipboard_sync is off"
    );
}

#[test]
fn c_y_types_kill_ring_head_into_the_pty() {
    let mut app = World::new(b"");
    app.emacs.kill_ring.push("hello".into());
    // C-y in live mode; test runtime has bracketed paste off -> raw text
    app.type_bytes(&[0x19]);
    assert_eq!(app.sent(), b"hello".to_vec());
    let last = app.emacs.last_yank.as_ref().expect("yank recorded");
    assert_eq!(last.chars, 5);
}

#[test]
fn m_y_replaces_the_previous_yank_with_the_older_kill() {
    let mut app = World::new(b"");
    app.emacs.kill_ring.push("older".into());
    app.emacs.kill_ring.push("newest".into());
    app.type_bytes(&[0x19]); // C-y -> "newest"
    assert_eq!(app.sent(), b"newest".to_vec());
    app.type_bytes(&[0x1b, b'y']); // M-y
    let mut expected = vec![0x7f; 6]; // erase "newest"
    expected.extend_from_slice(b"older");
    assert_eq!(app.sent(), expected);
}

#[test]
fn m_y_without_a_preceding_yank_complains() {
    let mut app = World::new(b"");
    app.emacs.kill_ring.push("x".into());
    app.type_bytes(&[0x1b, b'y']); // M-y cold
    assert_eq!(
        app.emacs.echo.as_deref(),
        Some("Previous command was not a yank")
    );
    assert!(app.sent().is_empty());
}

#[test]
fn typing_between_yanks_breaks_the_yank_chain() {
    let mut app = World::new(b"");
    app.emacs.kill_ring.push("x".into());
    app.type_bytes(&[0x19]); // C-y
    app.type_bytes(b"a"); // plain key passes through
    let _ = app.sent();
    app.type_bytes(&[0x1b, b'y']); // M-y no longer chains
    assert_eq!(
        app.emacs.echo.as_deref(),
        Some("Previous command was not a yank")
    );
    assert!(app.sent().is_empty());
}

#[test]
fn empty_kill_ring_yank_reports_and_sends_nothing() {
    let mut app = World::new(b"");
    app.type_bytes(&[0x19]);
    assert_eq!(app.emacs.echo.as_deref(), Some("Kill ring is empty"));
    assert!(app.sent().is_empty());
}

#[test]
fn unbound_multi_chord_between_yanks_breaks_the_yank_chain() {
    let mut app = World::new(b"");
    app.emacs.kill_ring.push("x".into());
    app.type_bytes(&[0x19]); // C-y
    app.type_bytes(&[0x18, b'z']); // C-x z: unbound, swallowed
    assert_eq!(app.emacs.echo.as_deref(), Some("C-x z is undefined"));
    let _ = app.sent();
    app.type_bytes(&[0x1b, b'y']); // M-y no longer chains
    assert_eq!(
        app.emacs.echo.as_deref(),
        Some("Previous command was not a yank")
    );
    assert!(app.sent().is_empty());
}

#[test]
fn m_y_in_text_mode_reports_read_only() {
    let mut app = World::new(FIVE_LINES);
    app.emacs.kill_ring.push("something".into());
    enter_text_mode(&mut app);
    app.type_bytes(&[0x1b, b'y']); // M-y
    assert_eq!(app.emacs.echo.as_deref(), Some("Buffer is read-only"));
    assert!(app.sent().is_empty(), "nothing typed into the PTY");
}

#[test]
fn m_g_g_prompts_and_jumps_to_the_line() {
    let mut app = World::new(FIVE_LINES);
    enter_text_mode(&mut app);
    app.type_bytes(&[0x1b, b'g', b'g']); // M-g g
    assert_eq!(
        app.emacs
            .text_mode
            .as_ref()
            .unwrap()
            .goto_line
            .as_deref(),
        Some("")
    );
    app.type_bytes(b"13"); // prompt: "13"
    app.type_bytes(&[0x7f]); // DEL -> "1"
    app.type_bytes(&[0x7f]); // DEL -> ""
    app.type_bytes(b"3"); // prompt: "3"
    assert_eq!(
        app.emacs
            .text_mode
            .as_ref()
            .unwrap()
            .goto_line
            .as_deref(),
        Some("3")
    );
    app.type_bytes(&[0x0d]); // RET
    let text = app.emacs.text_mode.as_ref().unwrap();
    assert_eq!(text.goto_line, None);
    assert_eq!((text.point.row, text.point.col), (2, 0), "line 3, 1-based");
    assert!(app.sent().is_empty());
}

#[test]
fn c_g_cancels_the_goto_prompt() {
    let mut app = World::new(FIVE_LINES);
    enter_text_mode(&mut app);
    app.type_bytes(&[0x1b, b'g', b'g']);
    let before = app.emacs.text_mode.as_ref().unwrap().point;
    app.type_bytes(&[b'9', 0x07]); // digit, then C-g
    let text = app.emacs.text_mode.as_ref().unwrap();
    assert_eq!(text.goto_line, None);
    assert_eq!(text.point, before, "point untouched");
    assert!(
        app.sent().is_empty(),
        "prompt keys never reach the PTY"
    );
}

#[test]
fn goto_line_clamps_out_of_range_lines_into_the_buffer() {
    let mut app = World::new(FIVE_LINES);
    enter_text_mode(&mut app);
    app.type_bytes(&[0x1b, b'>']); // M-> : learn the last row
    let last_row = app.emacs.text_mode.as_ref().unwrap().point.row;
    app.type_bytes(&[0x1b, b'g', b'g']);
    app.type_bytes(b"1");
    app.type_bytes(&[0x0d]); // RET
    let point = app.emacs.text_mode.as_ref().unwrap().point;
    assert_eq!((point.row, point.col), (0, 0), "line 1 is the first row");
    app.type_bytes(&[0x1b, b'g', b'g']);
    app.type_bytes(b"9999");
    app.type_bytes(&[0x0d]); // RET
    let point = app.emacs.text_mode.as_ref().unwrap().point;
    assert_eq!(
        (point.row, point.col),
        (last_row, 0),
        "out-of-range line clamps to the last row"
    );
}

#[test]
fn c_x_b_opens_the_navigator_from_text_mode() {
    let mut app = World::new(FIVE_LINES);
    enter_text_mode(&mut app);
    app.type_bytes(&[0x18, b'b']); // C-x b
    assert_eq!(app.navigated, vec![NavigateAction::OpenNavigator]);
    assert!(app.sent().is_empty());
}

#[test]
fn text_map_shadows_global_on_c_x_c_x() {
    let mut app = World::new(FIVE_LINES);
    enter_text_mode(&mut app);
    app.type_bytes(&[0x1b, b'<']); // M-<
    app.type_bytes(&[0x00]); // C-SPC
    app.type_bytes(&[0x0e]); // C-n
    app.type_bytes(&[0x18, 0x18]); // C-x C-x
    let text = app.emacs.text_mode.as_ref().expect("still in TEXT");
    assert_eq!((text.point.row, text.point.col), (0, 0), "point <-> mark");
}

#[test]
fn quoted_insert_in_text_mode_is_read_only() {
    let mut app = World::new(FIVE_LINES);
    enter_text_mode(&mut app);
    app.type_bytes(&[0x11]); // C-q
    assert!(!app.emacs.quoted_insert);
    assert_eq!(app.emacs.echo.as_deref(), Some("Buffer is read-only"));
    app.type_bytes(&[0x18]); // C-x: still a prefix, not a literal
    assert_eq!(app.emacs.pending.len(), 1);
    assert!(app.sent().is_empty());
}

#[test]
fn move_tab_clamps_at_both_ends_without_wrapping() {
    let meta = |c: char| TerminalKey::new(KeyCode::Char(c), KeyModifiers::alt());
    let mut app = World::new(b"");
    app.tabs = vec!["a", "b", "c"];
    app.active_tab = 0;
    app.press(meta('[')); // M-[ at the left edge
    assert_eq!(app.tabs, vec!["a", "b", "c"], "no wraparound");
    assert_eq!(app.active_tab, 0);

    app.active_tab = 2;
    app.press(meta(']')); // M-] at the right edge
    assert_eq!(app.tabs, vec!["a", "b", "c"], "no wraparound");
    assert_eq!(app.active_tab, 2);
}

#[test]
fn a_moved_tab_changes_places_with_its_neighbour() {
    let meta = |c: char| TerminalKey::new(KeyCode::Char(c), KeyModifiers::alt());
    let mut app = World::new(b"");
    app.tabs = vec!["a", "b", "c"];
    app.active_tab = 1;
    app.press(meta(']'));
    assert_eq!(app.tabs, vec!["a", "c", "b"]);
    assert_eq!(app.active_tab, 2);
    app.press(meta('['));
    app.press(meta('['));
    assert_eq!(app.tabs, vec!["b", "a", "c"]);
    assert_eq!(app.active_tab, 0);
}

#[test]
fn disabled_layer_is_bit_for_bit_passthrough() {
    let mut app = World::new(b"");
    app.emacs.apply_config(&config(false));
    assert!(!app.emacs.enabled);
    app.type_bytes(&[0x18]);
    assert_eq!(app.sent(), vec![0x18]);
    assert!(app.emacs.pending.is_empty());
}

#[test]
fn layer_leaves_non_terminal_modes_alone() {
    let mut app = World::new(b"");
    app.terminal_mode = false;
    app.type_bytes(&[0x18]);
    assert!(app.emacs.pending.is_empty(), "no chord started");
}

#[test]
fn beginning_of_buffer_scrolls_viewport_and_exit_restores_it() {
    let mut app = World::new(&fifty_lines());
    let entry_offset = app.pane(PANE).offset;
    enter_text_mode(&mut app);
    app.type_bytes(&[0x1b, b'<']); // M-<
    let metrics = app.pane(PANE).metrics();
    assert!(metrics.max_offset_from_bottom > 0, "fixture must actually have scrollback");
    assert_eq!(metrics.offset_from_bottom, metrics.max_offset_from_bottom);
    app.type_bytes(&[0x1b]); // ESC exits
    assert!(app.emacs.text_mode.is_none());
    assert_eq!(app.pane(PANE).offset, entry_offset, "scroll restored");
}

#[test]
fn focus_change_auto_exits_text_mode_and_routes_the_key_live() {
    let mut app = World::new(&fifty_lines());
    app.panes.push(Pane::new(OTHER, b""));
    let entry_offset = app.pane(PANE).offset;
    enter_text_mode(&mut app);
    assert_eq!(app.emacs.text_mode.as_ref().unwrap().pane_id, PANE);
    app.type_bytes(&[0x1b, b'<']); // M-<: scroll to the top
    assert_ne!(app.pane(PANE).offset, entry_offset, "text mode moved the viewport");

    app.focused = OTHER;
    app.type_bytes(b"x");

    assert!(app.emacs.text_mode.is_none(), "stale text mode ends on a focus mismatch");
    assert_eq!(app.pane(PANE).offset, entry_offset, "the scroll offset is restored");
    assert_eq!(app.pane(OTHER).sent, b"x".to_vec(), "the key reached the focused pane");
}

#[test]
fn text_mode_auto_exits_when_its_pane_runtime_is_gone() {
    let mut app = World::new(FIVE_LINES);
    enter_text_mode(&mut app);
    assert!(app.emacs.text_mode.is_some());
    app.pane(PANE).running = false;
    app.type_bytes(&[b'x']);
    assert!(app.emacs.text_mode.is_none());
}

#[test]
fn owns_pane_cursor_only_for_the_text_mode_pane() {
    let mut app = World::new(FIVE_LINES);
    assert!(!app.emacs.owns_pane_cursor(PANE), "off before entry");
    enter_text_mode(&mut app);
    assert!(app.emacs.owns_pane_cursor(PANE));
    assert!(!app.emacs.owns_pane_cursor(OTHER), "other panes keep their host cursor");
    app.type_bytes(&[b'q']);
    assert!(!app.emacs.owns_pane_cursor(PANE), "off after exit");
}

#[test]
fn overlay_draws_reversed_bold_point_at_the_point_cell() {
    let mut app = World::new(FIVE_LINES);
    enter_text_mode(&mut app);
    app.type_bytes(&[0x1b, b'<']); // M-< -> (0, 0)
    app.type_bytes(&[0x06, 0x06]); // C-f C-f -> (0, 2)
    let metrics = app.pane(PANE).metrics();
    assert_eq!(metrics.offset_from_bottom, metrics.max_offset_from_bottom);
    let text = app.emacs.text_mode.as_ref().unwrap();
    let overlay =
        text_mode_overlay(text.point, text.mark, text.mark_active, World::area(), metrics).unwrap();
    assert_eq!(overlay.point, Some((2, 0)));
    assert!(overlay.region.iter().all(|row| row.is_none()), "exactly one overlay cell");
}

#[test]
fn overlay_draws_nothing_when_point_is_off_screen() {
    let mut app = World::new(&fifty_lines());
    enter_text_mode(&mut app);
    let max = app.pane(PANE).metrics().max_offset_from_bottom;
    assert!(max > 0, "fixture has scrollback");
    // Below the viewport: point stays at the bottom, the view is scrolled to the top.
    app.pane(PANE).offset = max;
    let metrics = app.pane(PANE).metrics();
    let point = app.emacs.text_mode.as_ref().unwrap().point;
    assert!(point.row >= u32::from(HEIGHT), "point sits below the visible rows");
    let overlay = text_mode_overlay(point, None, false, World::area(), metrics).unwrap();
    assert_eq!(overlay.point, None);
    // Above the viewport: point on row 0, the view is scrolled back to the bottom.
    app.pane(PANE).offset = 0;
    let metrics = app.pane(PANE).metrics();
    let point = Pos { row: 0, col: 0 };
    let overlay = text_mode_overlay(point, None, false, World::area(), metrics).unwrap();
    assert_eq!(overlay.point, None);
}

#[test]
fn an_active_region_is_drawn_row_by_row() {
    let metrics = ScrollMetrics { offset_from_bottom: 0, max_offset_from_bottom: 0 };
    let area = PaneArea { x: 3, y: 4, width: 6, height: 3 };
    let mark = Pos { row: 0, col: 4 };
    let point = Pos { row: 2, col: 1 };
    let overlay = text_mode_overlay(point, Some(mark), true, area, metrics).unwrap();
    assert_eq!(overlay.region, vec![Some((4, 6)), Some((0, 6)), Some((0, 1))]);
    assert_eq!(overlay.point, Some((1, 2)));
    let empty = PaneArea { width: 0, ..area };
    assert_eq!(text_mode_overlay(point, Some(mark), true, empty, metrics), None);
}

#[test]
fn c_x_3_splits_the_window_from_inside_text_mode() {
    let mut app = World::new(FIVE_LINES);
    enter_text_mode(&mut app);
    assert!(app.emacs.text_mode.is_some());
    app.type_bytes(&[0x18, b'3']); // C-x 3
    assert_eq!(app.navigated, vec![NavigateAction::SplitVertical]);
    assert_ne!(app.emacs.echo.as_deref(), Some("C-x 3 is undefined"));
}

#[test]
fn re_entering_text_mode_is_a_no_op() {
    let mut app = World::new(&fifty_lines());
    enter_text_mode(&mut app);
    app.type_bytes(&[0x1b, b'<']); // M-<: point to row 0
    let text = app.emacs.text_mode.as_ref().unwrap();
    let before = (text.pane_id, text.point, text.mark, text.entry_offset_from_bottom);
    app.type_bytes(&[0x18, b'[']); // C-x [ again
    let text = app.emacs.text_mode.as_ref().unwrap();
    let after = (text.pane_id, text.point, text.mark, text.entry_offset_from_bottom);
    assert_eq!(after, before, "the session is untouched");
}

#[test]
fn a_config_bound_herdr_action_runs_without_a_code_change() {
    let mut app = World::new(b"");
    let keys = vec![TextPair { first: "C-x t".into(), second: "toggle-sidebar".into() }];
    app.emacs = EmacsState::from_config(&EmacsConfig { keys, ..config(true) });
    app.type_bytes(&[0x18, b't']); // C-x t
    assert_eq!(app.navigated, vec![NavigateAction::ToggleSidebar]);
    assert!(app.sent().is_empty());
}

#[test]
fn exchanging_point_and_mark_twice_changes_nothing() {
    let mut app = World::new(FIVE_LINES);
    enter_text_mode(&mut app);
    app.type_bytes(&[0x1b, b'<', 0x00, 0x0e, 0x06]); // M-< C-SPC C-n C-f
    app.type_bytes(&[0x18, 0x18, 0x18, 0x18]); // C-x C-x, twice
    let text = app.emacs.text_mode.as_ref().unwrap();
    assert_eq!(text.point, Pos { row: 1, col: 1 });
    assert_eq!(text.mark, Some(Pos { row: 0, col: 0 }));
}

#[test]
fn a_saved_region_is_what_the_next_yank_types() {
    let mut app = World::new(FIVE_LINES);
    select_first_two_lines(&mut app);
    app.type_bytes(&[0x1b, b'w', b'q']); // M-w, then leave
    app.type_bytes(&[0x19]); // C-y
    assert_eq!(app.sent(), b"alpha\nbravo six".to_vec());
}

#[test]
fn only_the_pane_of_the_session_is_drawn_over() {
    let mut app = World::new(FIVE_LINES);
    enter_text_mode(&mut app);
    let metrics = app.pane(PANE).metrics();
    let session = &app.emacs.text_mode;
    assert!(pane_overlay(session, PANE, World::area(), Some(metrics)).is_some());
    assert_eq!(pane_overlay(session, PANE + 1, World::area(), Some(metrics)), None);
    assert_eq!(pane_overlay(session, PANE, World::area(), None), None);
    assert_eq!(pane_overlay(&None, PANE, World::area(), Some(metrics)), None);
}
