//! Command names and the keymaps that bind them.

use herdr::emacs::commands::{all_commands, build_keymaps, builtin_names, herdr_command_name};
use herdr::emacs::commands::herdr_commands;
use herdr::emacs::commands::{EmacsBuiltin, EmacsCommand, MapContext, MapSlot, NavigateAction};
use herdr::emacs::commands::NAVIGATE_ACTION_COUNT;
use herdr::emacs::keymap::{parse_key_seq, Lookup};
use herdr::order::TextPair;

fn pair(seq: &str, name: &str) -> TextPair {
    TextPair { first: seq.to_string(), second: name.to_string() }
}

fn builtin(b: EmacsBuiltin) -> EmacsCommand {
    EmacsCommand::Builtin(b)
}
fn herdr(a: NavigateAction) -> EmacsCommand {
    EmacsCommand::Herdr(a)
}

#[test]
fn every_navigate_action_has_a_name() {
    assert_eq!(
        herdr_commands().len(),
        NAVIGATE_ACTION_COUNT,
        "every action has a name"
    );
    for (name, action) in herdr_commands() {
        assert_eq!(herdr_command_name(action), name);
        assert_eq!(
            EmacsCommand::from_name(name),
            Some(EmacsCommand::Herdr(action))
        );
    }
}

#[test]
fn command_names_round_trip_and_are_unique() {
    let all = all_commands();
    let mut seen = std::collections::HashSet::new();
    for (name, cmd) in all.iter().copied() {
        assert_eq!(cmd.name(), name, "{name} round-trips");
        assert_eq!(EmacsCommand::from_name(name), Some(cmd));
        assert!(seen.insert(name), "duplicate command name {name}");
    }
    assert_eq!(EmacsCommand::from_name("no-such-command"), None);
    // Sorted, so M-x completion is deterministic.
    let mut sorted: Vec<&str> = all.iter().map(|(name, _)| *name).collect();
    let original = sorted.clone();
    sorted.sort_unstable();
    assert_eq!(original, sorted, "all_commands() is sorted by name");
}

#[test]
fn herdr_actions_use_emacs_vocabulary_where_one_exists() {
    for (name, action) in [
        ("split-window-right", NavigateAction::SplitVertical),
        ("split-window-below", NavigateAction::SplitHorizontal),
        ("other-window", NavigateAction::CyclePaneNext),
        ("previous-window", NavigateAction::CyclePanePrevious),
        ("delete-window", NavigateAction::ClosePane),
        ("delete-other-windows", NavigateAction::Zoom),
        ("switch-to-buffer", NavigateAction::OpenNavigator),
        ("windmove-left", NavigateAction::FocusPaneLeft),
        ("windmove-swap-states-right", NavigateAction::SwapPaneRight),
    ] {
        assert_eq!(herdr_command_name(action), name);
    }
    // ...and herdr vocabulary where none does.
    for (name, action) in [
        ("toggle-sidebar", NavigateAction::ToggleSidebar),
        ("detach", NavigateAction::Detach),
        (
            "open-navigator-notification-target",
            NavigateAction::OpenNotificationTarget,
        ),
        ("new-worktree", NavigateAction::NewWorktree),
    ] {
        assert_eq!(herdr_command_name(action), name);
    }
}

#[test]
fn indexed_actions_default_to_index_zero() {
    // The index comes from the prefix arg at execution time
    // (`C-u 2 M-x switch-tab`), so the named command carries 0.
    assert_eq!(
        EmacsCommand::from_name("switch-tab"),
        Some(herdr(NavigateAction::SwitchTab(0)))
    );
    assert_eq!(
        EmacsCommand::from_name("switch-workspace"),
        Some(herdr(NavigateAction::SwitchWorkspace(0)))
    );
    assert_eq!(
        EmacsCommand::from_name("focus-agent"),
        Some(herdr(NavigateAction::FocusAgent(0)))
    );
    // Any index still names the same command.
    assert_eq!(
        herdr_command_name(NavigateAction::SwitchTab(7)),
        "switch-tab"
    );
}

#[test]
fn default_global_keymap_binds_management_chords() {
    let (keymaps, warnings) = build_keymaps(&[]);
    assert!(warnings.is_empty());
    let cases = [
        ("C-x 2", herdr(NavigateAction::SplitHorizontal)),
        ("C-x 3", herdr(NavigateAction::SplitVertical)),
        ("C-x o", herdr(NavigateAction::CyclePaneNext)),
        ("C-x 0", herdr(NavigateAction::ClosePane)),
        ("C-x 1", herdr(NavigateAction::Zoom)),
        ("C-x b", herdr(NavigateAction::OpenNavigator)),
        ("C-x C-f", herdr(NavigateAction::NewWorkspace)),
        ("C-x c", herdr(NavigateAction::NewTab)),
        ("C-x n", herdr(NavigateAction::NextTab)),
        ("C-x p", herdr(NavigateAction::PreviousTab)),
        ("C-x k", herdr(NavigateAction::CloseTab)),
        ("C-x t", herdr(NavigateAction::RenameTab)),
        ("C-c t", herdr(NavigateAction::RenameTab)),
        ("C-c w", herdr(NavigateAction::RenameWorkspace)),
        ("C-c C-c", builtin(EmacsBuiltin::InterruptProcess)),
        ("M-n", herdr(NavigateAction::NextAgent)),
        ("M-p", herdr(NavigateAction::PreviousAgent)),
        ("C-M-n", herdr(NavigateAction::NextWorkspace)),
        ("C-M-o", builtin(EmacsBuiltin::OpenAtPoint)),
        ("C-M-p", herdr(NavigateAction::PreviousWorkspace)),
        ("C-x w", herdr(NavigateAction::WorkspacePicker)),
        ("C-x [", builtin(EmacsBuiltin::TextMode)),
        ("C-q", builtin(EmacsBuiltin::QuotedInsert)),
        ("C-g", builtin(EmacsBuiltin::KeyboardQuit)),
        ("M-x", builtin(EmacsBuiltin::ExecuteExtendedCommand)),
        ("C-x ?", builtin(EmacsBuiltin::DescribeBindings)),
        ("C-y", builtin(EmacsBuiltin::Yank)),
        ("M-y", builtin(EmacsBuiltin::YankPop)),
    ];
    for (seq, cmd) in cases {
        assert_eq!(
            keymaps.global.lookup(&parse_key_seq(seq).unwrap()),
            Lookup::Bound(cmd),
            "global {seq}"
        );
    }
    assert_eq!(
        keymaps.global.lookup(&parse_key_seq("C-x").unwrap()),
        Lookup::Prefix
    );
}

#[test]
fn minibuffer_map_binds_editing_and_submission() {
    let (keymaps, _) = build_keymaps(&[]);
    for (seq, command) in [
        ("RET", EmacsBuiltin::ExitMinibuffer),
        ("DEL", EmacsBuiltin::DeleteBackwardChar),
        ("C-k", EmacsBuiltin::KillLine),
        ("C-w", EmacsBuiltin::BackwardKillWord),
        ("C-a", EmacsBuiltin::MoveBeginningOfLine),
        ("C-e", EmacsBuiltin::MoveEndOfLine),
    ] {
        assert_eq!(
            keymaps.lookup(MapContext::Minibuffer, &parse_key_seq(seq).unwrap()),
            Lookup::Bound(builtin(command)),
            "minibuffer {seq}"
        );
    }
    assert_eq!(
        EmacsCommand::from_name("feedback"),
        Some(builtin(EmacsBuiltin::Feedback))
    );
    assert_eq!(
        EmacsCommand::from_name("herdr-onboarding"),
        Some(builtin(EmacsBuiltin::HerdrOnboarding))
    );
}

#[test]
fn default_text_keymap_binds_motions_and_region() {
    let (keymaps, _) = build_keymaps(&[]);
    let cases = [
        ("C-f", EmacsBuiltin::ForwardChar),
        ("C-b", EmacsBuiltin::BackwardChar),
        ("C-n", EmacsBuiltin::NextLine),
        ("C-p", EmacsBuiltin::PreviousLine),
        ("M-f", EmacsBuiltin::ForwardWord),
        ("M-b", EmacsBuiltin::BackwardWord),
        ("C-M-f", EmacsBuiltin::ForwardSexp),
        ("C-M-b", EmacsBuiltin::BackwardSexp),
        ("C-a", EmacsBuiltin::MoveBeginningOfLine),
        ("C-e", EmacsBuiltin::MoveEndOfLine),
        ("C-l", EmacsBuiltin::RecenterTopBottom),
        ("C-v", EmacsBuiltin::ScrollUp),
        ("M-v", EmacsBuiltin::ScrollDown),
        ("M-<", EmacsBuiltin::BeginningOfBuffer),
        ("M->", EmacsBuiltin::EndOfBuffer),
        ("M-g g", EmacsBuiltin::GotoLine),
        ("C-SPC", EmacsBuiltin::SetMark),
        ("C-x C-x", EmacsBuiltin::ExchangePointAndMark),
        ("M-w", EmacsBuiltin::KillRingSave),
        ("C-w", EmacsBuiltin::KillRegion),
        ("C-y", EmacsBuiltin::Yank),
        ("M-y", EmacsBuiltin::YankPop),
        ("q", EmacsBuiltin::ExitTextMode),
        ("ESC", EmacsBuiltin::ExitTextMode),
    ];
    for (seq, cmd) in cases {
        assert_eq!(
            keymaps.text.lookup(&parse_key_seq(seq).unwrap()),
            Lookup::Bound(builtin(cmd)),
            "text {seq}"
        );
    }
    assert_eq!(
        keymaps.text.lookup(&parse_key_seq("M-g").unwrap()),
        Lookup::Prefix
    );
    // C-g lives in the global map and reaches TEXT mode by fallthrough.
    assert_eq!(
        keymaps.lookup(MapContext::Text, &parse_key_seq("C-g").unwrap()),
        Lookup::Bound(builtin(EmacsBuiltin::KeyboardQuit))
    );
}

#[test]
fn active_maps_stack_by_context() {
    let (keymaps, _) = build_keymaps(&[]);
    let names = |ctx| {
        keymaps
            .active_maps(ctx)
            .into_iter()
            .map(|active| active.name)
            .collect::<Vec<_>>()
    };
    assert_eq!(names(MapContext::Live), vec!["global"]);
    assert_eq!(names(MapContext::Text), vec!["text", "global"]);
    assert_eq!(names(MapContext::Minibuffer), vec!["minibuffer", "global"]);
}

#[test]
fn global_bindings_fall_through_in_text_mode() {
    let (keymaps, _) = build_keymaps(&[]);
    assert_eq!(
        keymaps.lookup(MapContext::Text, &parse_key_seq("C-x 3").unwrap()),
        Lookup::Bound(herdr(NavigateAction::SplitVertical))
    );
    assert_eq!(
        keymaps.lookup(MapContext::Text, &parse_key_seq("C-x C-x").unwrap()),
        Lookup::Bound(builtin(EmacsBuiltin::ExchangePointAndMark))
    );
    assert_eq!(
        keymaps.lookup(MapContext::Text, &parse_key_seq("C-x").unwrap()),
        Lookup::Prefix
    );
    assert_eq!(
        keymaps.lookup(MapContext::Live, &parse_key_seq("C-f").unwrap()),
        Lookup::Unbound
    );
}

#[test]
fn config_overrides_bind_any_command_and_warn_on_junk() {
    let mut overrides: Vec<TextPair> = Vec::new();
    overrides.push(pair("C-x 4", "split-window-right"));
    overrides.push(pair("C-x t", "toggle-sidebar"));
    overrides.push(pair("C-x z", "no-such-command"));
    overrides.push(pair("???", "new-tab"));
    let (keymaps, warnings) = build_keymaps(&overrides);
    assert_eq!(
        keymaps.global.lookup(&parse_key_seq("C-x 4").unwrap()),
        Lookup::Bound(herdr(NavigateAction::SplitVertical))
    );
    assert_eq!(
        keymaps.global.lookup(&parse_key_seq("C-x t").unwrap()),
        Lookup::Bound(herdr(NavigateAction::ToggleSidebar)),
        "a herdr action, exposed by name, with no code change"
    );
    assert_eq!(warnings.len(), 2, "{warnings:?}");
}

#[test]
fn text_only_builtins_override_into_the_text_map() {
    let mut overrides: Vec<TextPair> = Vec::new();
    overrides.push(pair("C-j", "next-line"));
    let (keymaps, warnings) = build_keymaps(&overrides);
    assert!(warnings.is_empty());
    assert_eq!(
        keymaps.text.lookup(&parse_key_seq("C-j").unwrap()),
        Lookup::Bound(builtin(EmacsBuiltin::NextLine))
    );
    assert_eq!(
        keymaps.global.lookup(&parse_key_seq("C-j").unwrap()),
        Lookup::Unbound,
        "a motion must not steal C-j from the agent in live mode"
    );
}

#[test]
fn tab_navigation_and_reordering_are_bound_by_default() {
    let (keymaps, _) = build_keymaps(&[]);
    let cases = [
        ("C-[", herdr(NavigateAction::PreviousTab)),
        ("C-]", herdr(NavigateAction::NextTab)),
        ("M-[", builtin(EmacsBuiltin::MoveTabLeft)),
        ("M-]", builtin(EmacsBuiltin::MoveTabRight)),
    ];
    for (seq, cmd) in cases {
        assert_eq!(
            keymaps.global.lookup(&parse_key_seq(seq).unwrap()),
            Lookup::Bound(cmd),
            "global {seq}"
        );
        // ...and reachable from TEXT mode by fallthrough.
        assert_eq!(
            keymaps.lookup(MapContext::Text, &parse_key_seq(seq).unwrap()),
            Lookup::Bound(cmd),
            "text fallthrough {seq}"
        );
    }
    // C-[ must NOT shadow ESC (which still exits TEXT mode) — they are
    // different chords.
    assert_eq!(
        keymaps.lookup(MapContext::Text, &parse_key_seq("ESC").unwrap()),
        Lookup::Bound(builtin(EmacsBuiltin::ExitTextMode))
    );
}

#[test]
fn the_move_tab_commands_are_named_and_global() {
    assert_eq!(
        EmacsCommand::from_name("move-tab-left"),
        Some(builtin(EmacsBuiltin::MoveTabLeft))
    );
    assert_eq!(
        EmacsCommand::from_name("move-tab-right"),
        Some(builtin(EmacsBuiltin::MoveTabRight))
    );
    assert_eq!(EmacsBuiltin::MoveTabLeft.default_map(), MapSlot::Global);
    assert_eq!(EmacsBuiltin::MoveTabRight.default_map(), MapSlot::Global);
}

#[test]
fn incremental_search_has_global_entry_and_a_local_keymap() {
    let (keymaps, _) = build_keymaps(&[]);
    assert_eq!(
        keymaps.lookup(MapContext::Live, &parse_key_seq("C-s").unwrap()),
        Lookup::Bound(EmacsCommand::Builtin(EmacsBuiltin::IsearchForward))
    );
    assert_eq!(
        keymaps.lookup(MapContext::Live, &parse_key_seq("C-r").unwrap()),
        Lookup::Bound(EmacsCommand::Builtin(EmacsBuiltin::IsearchBackward))
    );
    assert_eq!(
        keymaps.lookup(MapContext::Isearch, &parse_key_seq("RET").unwrap()),
        Lookup::Bound(EmacsCommand::Builtin(EmacsBuiltin::IsearchExit))
    );
    assert_eq!(
        keymaps.lookup(MapContext::Isearch, &parse_key_seq("DEL").unwrap()),
        Lookup::Bound(EmacsCommand::Builtin(EmacsBuiltin::IsearchDeleteChar))
    );
    assert_eq!(
        keymaps
            .active_maps(MapContext::Isearch)
            .into_iter()
            .map(|active| active.name)
            .collect::<Vec<_>>(),
        vec!["isearch", "global"]
    );
}

#[test]
fn builtins_are_listed_with_their_names() {
    let names = builtin_names();
    for (builtin, name) in &names {
        assert_eq!(builtin.name(), *name);
    }
    assert!(names.contains(&(EmacsBuiltin::KeyboardQuit, "keyboard-quit")));
    assert!(names.windows(2).all(|pair| pair[0].1 < pair[1].1));
}
