//! Configuring the layer.

use herdr::emacs::commands::MapContext;
use herdr::emacs::isearch::{IsearchState, SearchDirection};
use herdr::emacs::rings::MarkRing;
use herdr::emacs::state::{EmacsConfig, EmacsState, PaneMarks};
use herdr::emacs::text_mode::{Pos, TextModeState};
use herdr::order::TextPair;

fn plain() -> EmacsConfig {
    EmacsConfig {
        enabled: false,
        claude_ax_screen_reader: false,
        clipboard_sync: true,
        kill_ring_max: 60,
        mark_ring_max: 16,
        keys: Vec::new(),
    }
}

fn session(pane_id: u64) -> TextModeState {
    TextModeState {
        pane_id,
        point: Pos { row: 0, col: 0 },
        mark: None,
        mark_active: false,
        entry_offset_from_bottom: 0,
        goto_line: None,
        isearch: None,
    }
}

#[test]
fn claude_ax_screen_reader_requires_enabled_emacs_layer() {
    let disabled =
        EmacsState::from_config(&EmacsConfig { claude_ax_screen_reader: true, ..plain() });
    assert!(!disabled.claude_ax_screen_reader);

    let enabled = EmacsState::from_config(&EmacsConfig {
        enabled: true,
        claude_ax_screen_reader: true,
        ..plain()
    });
    assert!(enabled.claude_ax_screen_reader);
}

#[test]
fn apply_config_trims_existing_pane_mark_rings() {
    let mut state =
        EmacsState::from_config(&EmacsConfig { enabled: true, mark_ring_max: 10, ..plain() });
    let pane_id: u64 = 3;
    let mut ring = MarkRing::new(10);
    for i in 0..5 {
        ring.push((i, 0));
    }
    state.mark_rings.push(PaneMarks { pane_id, ring });
    assert_eq!(state.mark_rings[0].ring.len(), 5);

    let _ = state.apply_config(&EmacsConfig { enabled: true, mark_ring_max: 2, ..plain() });

    assert_eq!(
        state.mark_rings[0].ring.len(),
        2,
        "existing pane mark ring shrinks on live reload"
    );
}

#[test]
fn disabling_the_layer_ends_text_mode() {
    let mut state = EmacsState::from_config(&EmacsConfig { enabled: true, ..plain() });
    state.text_mode = Some(session(4));
    assert!(state.has_render_overlay());
    assert!(state.owns_pane_cursor(4));
    let warnings = state.apply_config(&plain());
    assert!(warnings.is_empty());
    assert!(!state.has_render_overlay());
    assert!(!state.owns_pane_cursor(4));
}

#[test]
fn reconfiguring_keeps_what_was_killed() {
    let mut state = EmacsState::from_config(&EmacsConfig { enabled: true, ..plain() });
    state.kill_ring.push("kept".into());
    let _ = state.apply_config(&EmacsConfig { enabled: true, kill_ring_max: 5, ..plain() });
    assert_eq!(state.kill_ring.head(), Some("kept"));
}

#[test]
fn unreadable_overrides_are_reported() {
    let mut state = EmacsState::from_config(&plain());
    let keys = vec![
        TextPair { first: "C-x z".into(), second: "no-such-command".into() },
        TextPair { first: "???".into(), second: "new-tab".into() },
    ];
    let warnings = state.apply_config(&EmacsConfig { enabled: true, keys, ..plain() });
    assert_eq!(warnings.len(), 2);
}

#[test]
fn the_context_follows_what_is_open() {
    let mut state = EmacsState::from_config(&EmacsConfig { enabled: true, ..plain() });
    assert_eq!(state.map_context(), MapContext::Live);
    state.text_mode = Some(session(1));
    assert_eq!(state.map_context(), MapContext::Text);
    state.text_mode.as_mut().unwrap().isearch =
        Some(IsearchState::new(SearchDirection::Forward, Pos { row: 0, col: 0 }));
    assert_eq!(state.map_context(), MapContext::Isearch);
}
