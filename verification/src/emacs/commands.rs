//! The command table: every capability is a named command.
//!
//! Keymaps bind chords to commands and `M-x` runs them by name. A command is either a builtin of
//! the layer (motions, rings, text mode, help) or one of the multiplexer's own navigate actions.

use crate::emacs::keymap::{
    looked_up, parse_key_seq, rebound, sequence_named, stack_entries, stack_looked_up,
    stack_lookup, Chord, Keymap, Lookup,
};
use crate::input::KeyCode;
use crate::order::{
    lemma_before_at, models, pair_le, sort, sorted, text_at_most, text_before, text_le,
    text_order_is_total, Ordered, TextPair,
};
use crate::text::same_text;
use vstd::prelude::*;

verus! {

/// The number of navigate actions.
pub const NAVIGATE_ACTION_COUNT: usize = 46;

/// A management action of the multiplexer.
#[derive(Debug, Clone, Copy, PartialEq, Eq, Structural)]
pub enum NavigateAction {
    SplitVertical,
    SplitHorizontal,
    ClosePane,
    Zoom,
    CyclePaneNext,
    CyclePanePrevious,
    OpenNavigator,
    FocusPaneLeft,
    FocusPaneDown,
    FocusPaneUp,
    FocusPaneRight,
    SwapPaneLeft,
    SwapPaneDown,
    SwapPaneUp,
    SwapPaneRight,
    CloseTab,
    NewWorkspace,
    NewWorktree,
    OpenWorktree,
    RemoveWorktree,
    RenameWorkspace,
    CloseWorkspace,
    WorkspacePicker,
    PreviousWorkspace,
    NextWorkspace,
    PreviousAgent,
    NextAgent,
    NewTab,
    RenameTab,
    PreviousTab,
    NextTab,
    RenamePane,
    EditScrollback,
    CopyMode,
    EnterResizeMode,
    ToggleSidebar,
    LastPane,
    Help,
    Settings,
    ReloadConfig,
    ResetFederationConnections,
    OpenNotificationTarget,
    Detach,
    SwitchWorkspace(usize),
    SwitchTab(usize),
    FocusAgent(usize),
}

/// The command name of a navigate action; one that carries an index is named whatever the index.
pub open spec fn action_name(action: NavigateAction) -> Seq<char> {
    match action {
        NavigateAction::SplitVertical => "split-window-right"@,
        NavigateAction::SplitHorizontal => "split-window-below"@,
        NavigateAction::ClosePane => "delete-window"@,
        NavigateAction::Zoom => "delete-other-windows"@,
        NavigateAction::CyclePaneNext => "other-window"@,
        NavigateAction::CyclePanePrevious => "previous-window"@,
        NavigateAction::OpenNavigator => "switch-to-buffer"@,
        NavigateAction::FocusPaneLeft => "windmove-left"@,
        NavigateAction::FocusPaneDown => "windmove-down"@,
        NavigateAction::FocusPaneUp => "windmove-up"@,
        NavigateAction::FocusPaneRight => "windmove-right"@,
        NavigateAction::SwapPaneLeft => "windmove-swap-states-left"@,
        NavigateAction::SwapPaneDown => "windmove-swap-states-down"@,
        NavigateAction::SwapPaneUp => "windmove-swap-states-up"@,
        NavigateAction::SwapPaneRight => "windmove-swap-states-right"@,
        NavigateAction::CloseTab => "kill-tab"@,
        NavigateAction::NewWorkspace => "new-workspace"@,
        NavigateAction::NewWorktree => "new-worktree"@,
        NavigateAction::OpenWorktree => "open-worktree"@,
        NavigateAction::RemoveWorktree => "remove-worktree"@,
        NavigateAction::RenameWorkspace => "rename-workspace"@,
        NavigateAction::CloseWorkspace => "close-workspace"@,
        NavigateAction::WorkspacePicker => "workspace-picker"@,
        NavigateAction::PreviousWorkspace => "previous-workspace"@,
        NavigateAction::NextWorkspace => "next-workspace"@,
        NavigateAction::PreviousAgent => "previous-agent"@,
        NavigateAction::NextAgent => "next-agent"@,
        NavigateAction::NewTab => "new-tab"@,
        NavigateAction::RenameTab => "rename-tab"@,
        NavigateAction::PreviousTab => "previous-tab"@,
        NavigateAction::NextTab => "next-tab"@,
        NavigateAction::RenamePane => "rename-pane"@,
        NavigateAction::EditScrollback => "edit-scrollback"@,
        NavigateAction::CopyMode => "copy-mode"@,
        NavigateAction::EnterResizeMode => "resize-mode"@,
        NavigateAction::ToggleSidebar => "toggle-sidebar"@,
        NavigateAction::LastPane => "last-pane"@,
        NavigateAction::Help => "herdr-help"@,
        NavigateAction::Settings => "settings"@,
        NavigateAction::ReloadConfig => "reload-config"@,
        NavigateAction::ResetFederationConnections => "reset-federation-connections"@,
        NavigateAction::OpenNotificationTarget => "open-navigator-notification-target"@,
        NavigateAction::Detach => "detach"@,
        NavigateAction::SwitchWorkspace(_) => "switch-workspace"@,
        NavigateAction::SwitchTab(_) => "switch-tab"@,
        NavigateAction::FocusAgent(_) => "focus-agent"@,
    }
}

/// The command name of a navigate action.
pub fn herdr_command_name(action: NavigateAction) -> (r: &'static str)
    ensures
        r@ == action_name(action),
{
    match action {
        NavigateAction::SplitVertical => "split-window-right",
        NavigateAction::SplitHorizontal => "split-window-below",
        NavigateAction::ClosePane => "delete-window",
        NavigateAction::Zoom => "delete-other-windows",
        NavigateAction::CyclePaneNext => "other-window",
        NavigateAction::CyclePanePrevious => "previous-window",
        NavigateAction::OpenNavigator => "switch-to-buffer",
        NavigateAction::FocusPaneLeft => "windmove-left",
        NavigateAction::FocusPaneDown => "windmove-down",
        NavigateAction::FocusPaneUp => "windmove-up",
        NavigateAction::FocusPaneRight => "windmove-right",
        NavigateAction::SwapPaneLeft => "windmove-swap-states-left",
        NavigateAction::SwapPaneDown => "windmove-swap-states-down",
        NavigateAction::SwapPaneUp => "windmove-swap-states-up",
        NavigateAction::SwapPaneRight => "windmove-swap-states-right",
        NavigateAction::CloseTab => "kill-tab",
        NavigateAction::NewWorkspace => "new-workspace",
        NavigateAction::NewWorktree => "new-worktree",
        NavigateAction::OpenWorktree => "open-worktree",
        NavigateAction::RemoveWorktree => "remove-worktree",
        NavigateAction::RenameWorkspace => "rename-workspace",
        NavigateAction::CloseWorkspace => "close-workspace",
        NavigateAction::WorkspacePicker => "workspace-picker",
        NavigateAction::PreviousWorkspace => "previous-workspace",
        NavigateAction::NextWorkspace => "next-workspace",
        NavigateAction::PreviousAgent => "previous-agent",
        NavigateAction::NextAgent => "next-agent",
        NavigateAction::NewTab => "new-tab",
        NavigateAction::RenameTab => "rename-tab",
        NavigateAction::PreviousTab => "previous-tab",
        NavigateAction::NextTab => "next-tab",
        NavigateAction::RenamePane => "rename-pane",
        NavigateAction::EditScrollback => "edit-scrollback",
        NavigateAction::CopyMode => "copy-mode",
        NavigateAction::EnterResizeMode => "resize-mode",
        NavigateAction::ToggleSidebar => "toggle-sidebar",
        NavigateAction::LastPane => "last-pane",
        NavigateAction::Help => "herdr-help",
        NavigateAction::Settings => "settings",
        NavigateAction::ReloadConfig => "reload-config",
        NavigateAction::ResetFederationConnections => "reset-federation-connections",
        NavigateAction::OpenNotificationTarget => "open-navigator-notification-target",
        NavigateAction::Detach => "detach",
        NavigateAction::SwitchWorkspace(_) => "switch-workspace",
        NavigateAction::SwitchTab(_) => "switch-tab",
        NavigateAction::FocusAgent(_) => "focus-agent",
    }
}

/// The action takes an index.
pub open spec fn indexed(action: NavigateAction) -> bool {
    action is SwitchWorkspace || action is SwitchTab || action is FocusAgent
}

/// Whether the action takes its index from the prefix argument.
pub fn herdr_action_is_indexed(action: NavigateAction) -> (r: bool)
    ensures
        r == indexed(action),
{
    match action {
        NavigateAction::SwitchWorkspace(_) | NavigateAction::SwitchTab(_) | NavigateAction::FocusAgent(_) => true,
        _ => false,
    }
}

/// The action that a name alone stands for: index zero where there is one.
pub open spec fn at_index_zero(action: NavigateAction) -> bool {
    match action {
        NavigateAction::SwitchWorkspace(i) => i == 0,
        NavigateAction::SwitchTab(i) => i == 0,
        NavigateAction::FocusAgent(i) => i == 0,
        _ => true,
    }
}

/// Every navigate action, those with an index at zero.
pub open spec fn action_order() -> Seq<NavigateAction> {
    seq![
        NavigateAction::SplitVertical,
        NavigateAction::SplitHorizontal,
        NavigateAction::ClosePane,
        NavigateAction::Zoom,
        NavigateAction::CyclePaneNext,
        NavigateAction::CyclePanePrevious,
        NavigateAction::OpenNavigator,
        NavigateAction::FocusPaneLeft,
        NavigateAction::FocusPaneDown,
        NavigateAction::FocusPaneUp,
        NavigateAction::FocusPaneRight,
        NavigateAction::SwapPaneLeft,
        NavigateAction::SwapPaneDown,
        NavigateAction::SwapPaneUp,
        NavigateAction::SwapPaneRight,
        NavigateAction::CloseTab,
        NavigateAction::NewWorkspace,
        NavigateAction::NewWorktree,
        NavigateAction::OpenWorktree,
        NavigateAction::RemoveWorktree,
        NavigateAction::RenameWorkspace,
        NavigateAction::CloseWorkspace,
        NavigateAction::WorkspacePicker,
        NavigateAction::PreviousWorkspace,
        NavigateAction::NextWorkspace,
        NavigateAction::PreviousAgent,
        NavigateAction::NextAgent,
        NavigateAction::NewTab,
        NavigateAction::RenameTab,
        NavigateAction::PreviousTab,
        NavigateAction::NextTab,
        NavigateAction::RenamePane,
        NavigateAction::EditScrollback,
        NavigateAction::CopyMode,
        NavigateAction::EnterResizeMode,
        NavigateAction::ToggleSidebar,
        NavigateAction::LastPane,
        NavigateAction::Help,
        NavigateAction::Settings,
        NavigateAction::ReloadConfig,
        NavigateAction::ResetFederationConnections,
        NavigateAction::OpenNotificationTarget,
        NavigateAction::Detach,
        NavigateAction::SwitchWorkspace(0),
        NavigateAction::SwitchTab(0),
        NavigateAction::FocusAgent(0),
    ]
}

fn actions() -> (r: Vec<NavigateAction>)
    ensures
        r@ == action_order(),
{
    vec![
        NavigateAction::SplitVertical,
        NavigateAction::SplitHorizontal,
        NavigateAction::ClosePane,
        NavigateAction::Zoom,
        NavigateAction::CyclePaneNext,
        NavigateAction::CyclePanePrevious,
        NavigateAction::OpenNavigator,
        NavigateAction::FocusPaneLeft,
        NavigateAction::FocusPaneDown,
        NavigateAction::FocusPaneUp,
        NavigateAction::FocusPaneRight,
        NavigateAction::SwapPaneLeft,
        NavigateAction::SwapPaneDown,
        NavigateAction::SwapPaneUp,
        NavigateAction::SwapPaneRight,
        NavigateAction::CloseTab,
        NavigateAction::NewWorkspace,
        NavigateAction::NewWorktree,
        NavigateAction::OpenWorktree,
        NavigateAction::RemoveWorktree,
        NavigateAction::RenameWorkspace,
        NavigateAction::CloseWorkspace,
        NavigateAction::WorkspacePicker,
        NavigateAction::PreviousWorkspace,
        NavigateAction::NextWorkspace,
        NavigateAction::PreviousAgent,
        NavigateAction::NextAgent,
        NavigateAction::NewTab,
        NavigateAction::RenameTab,
        NavigateAction::PreviousTab,
        NavigateAction::NextTab,
        NavigateAction::RenamePane,
        NavigateAction::EditScrollback,
        NavigateAction::CopyMode,
        NavigateAction::EnterResizeMode,
        NavigateAction::ToggleSidebar,
        NavigateAction::LastPane,
        NavigateAction::Help,
        NavigateAction::Settings,
        NavigateAction::ReloadConfig,
        NavigateAction::ResetFederationConnections,
        NavigateAction::OpenNotificationTarget,
        NavigateAction::Detach,
        NavigateAction::SwitchWorkspace(0),
        NavigateAction::SwitchTab(0),
        NavigateAction::FocusAgent(0),
    ]
}

/// Every navigate action with its name.
pub fn herdr_commands() -> (r: Vec<(&'static str, NavigateAction)>)
    ensures
        r@.len() == NAVIGATE_ACTION_COUNT,
        forall|i: int|
            #![trigger r@[i]]
            0 <= i < r@.len() ==> r@[i].1 == action_order()[i] && r@[i].0@ == action_name(r@[i].1),
{
    let all = actions();
    let mut out: Vec<(&'static str, NavigateAction)> = Vec::new();
    let mut i: usize = 0;
    while i < all.len()
        invariant
            i <= all@.len(),
            all@ == action_order(),
            out@.len() == i,
            forall|k: int|
                #![trigger out@[k]]
                0 <= k < i ==> out@[k].1 == action_order()[k] && out@[k].0@ == action_name(
                    out@[k].1,
                ),
        decreases all@.len() - i,
    {
        out.push((herdr_command_name(all[i]), all[i]));
        i += 1;
    }
    out
}

/// A command of the layer itself.
#[derive(Debug, Clone, Copy, PartialEq, Eq, Structural)]
pub enum EmacsBuiltin {
    UniversalArgument,
    ExecuteExtendedCommand,
    Feedback,
    HerdrOnboarding,
    InterruptProcess,
    KeyboardQuit,
    OpenAtPoint,
    QuotedInsert,
    RefreshHerdr,
    MoveTabLeft,
    MoveTabRight,
    TextMode,
    ExitTextMode,
    ForwardChar,
    BackwardChar,
    NextLine,
    PreviousLine,
    ForwardWord,
    BackwardWord,
    ForwardSexp,
    BackwardSexp,
    MoveBeginningOfLine,
    MoveEndOfLine,
    RecenterTopBottom,
    ScrollUp,
    ScrollDown,
    BeginningOfBuffer,
    EndOfBuffer,
    GotoLine,
    IsearchForward,
    IsearchBackward,
    SetMark,
    ExchangePointAndMark,
    KillRingSave,
    KillRegion,
    Yank,
    YankPop,
    DeleteBackwardChar,
    DeleteForwardChar,
    KillBeginningOfLine,
    KillLine,
    BackwardKillWord,
    MarkWholeInput,
    ExitMinibuffer,
    IsearchExit,
    IsearchDeleteChar,
    IsearchPreviousHistory,
    IsearchNextHistory,
    DescribeKey,
    DescribeBindings,
}

/// The command name of a builtin.
pub open spec fn builtin_name(builtin: EmacsBuiltin) -> Seq<char> {
    match builtin {
        EmacsBuiltin::UniversalArgument => "universal-argument"@,
        EmacsBuiltin::ExecuteExtendedCommand => "execute-extended-command"@,
        EmacsBuiltin::Feedback => "feedback"@,
        EmacsBuiltin::HerdrOnboarding => "herdr-onboarding"@,
        EmacsBuiltin::InterruptProcess => "interrupt-process"@,
        EmacsBuiltin::KeyboardQuit => "keyboard-quit"@,
        EmacsBuiltin::OpenAtPoint => "open-at-point"@,
        EmacsBuiltin::QuotedInsert => "quoted-insert"@,
        EmacsBuiltin::RefreshHerdr => "refresh-herdr"@,
        EmacsBuiltin::MoveTabLeft => "move-tab-left"@,
        EmacsBuiltin::MoveTabRight => "move-tab-right"@,
        EmacsBuiltin::TextMode => "text-mode"@,
        EmacsBuiltin::ExitTextMode => "exit-text-mode"@,
        EmacsBuiltin::ForwardChar => "forward-char"@,
        EmacsBuiltin::BackwardChar => "backward-char"@,
        EmacsBuiltin::NextLine => "next-line"@,
        EmacsBuiltin::PreviousLine => "previous-line"@,
        EmacsBuiltin::ForwardWord => "forward-word"@,
        EmacsBuiltin::BackwardWord => "backward-word"@,
        EmacsBuiltin::ForwardSexp => "forward-sexp"@,
        EmacsBuiltin::BackwardSexp => "backward-sexp"@,
        EmacsBuiltin::MoveBeginningOfLine => "move-beginning-of-line"@,
        EmacsBuiltin::MoveEndOfLine => "move-end-of-line"@,
        EmacsBuiltin::RecenterTopBottom => "recenter-top-bottom"@,
        EmacsBuiltin::ScrollUp => "scroll-up"@,
        EmacsBuiltin::ScrollDown => "scroll-down"@,
        EmacsBuiltin::BeginningOfBuffer => "beginning-of-buffer"@,
        EmacsBuiltin::EndOfBuffer => "end-of-buffer"@,
        EmacsBuiltin::GotoLine => "goto-line"@,
        EmacsBuiltin::IsearchForward => "isearch-forward"@,
        EmacsBuiltin::IsearchBackward => "isearch-backward"@,
        EmacsBuiltin::SetMark => "set-mark-command"@,
        EmacsBuiltin::ExchangePointAndMark => "exchange-point-and-mark"@,
        EmacsBuiltin::KillRingSave => "kill-ring-save"@,
        EmacsBuiltin::KillRegion => "kill-region"@,
        EmacsBuiltin::Yank => "yank"@,
        EmacsBuiltin::YankPop => "yank-pop"@,
        EmacsBuiltin::DeleteBackwardChar => "delete-backward-char"@,
        EmacsBuiltin::DeleteForwardChar => "delete-forward-char"@,
        EmacsBuiltin::KillBeginningOfLine => "kill-beginning-of-line"@,
        EmacsBuiltin::KillLine => "kill-line"@,
        EmacsBuiltin::BackwardKillWord => "backward-kill-word"@,
        EmacsBuiltin::MarkWholeInput => "mark-whole-input"@,
        EmacsBuiltin::ExitMinibuffer => "exit-minibuffer"@,
        EmacsBuiltin::IsearchExit => "isearch-exit"@,
        EmacsBuiltin::IsearchDeleteChar => "isearch-delete-char"@,
        EmacsBuiltin::IsearchPreviousHistory => "isearch-previous-history"@,
        EmacsBuiltin::IsearchNextHistory => "isearch-next-history"@,
        EmacsBuiltin::DescribeKey => "describe-key"@,
        EmacsBuiltin::DescribeBindings => "describe-bindings"@,
    }
}

/// Every builtin, sorted by name.
pub open spec fn builtin_order() -> Seq<EmacsBuiltin> {
    seq![
        EmacsBuiltin::BackwardChar,
        EmacsBuiltin::BackwardKillWord,
        EmacsBuiltin::BackwardSexp,
        EmacsBuiltin::BackwardWord,
        EmacsBuiltin::BeginningOfBuffer,
        EmacsBuiltin::DeleteBackwardChar,
        EmacsBuiltin::DeleteForwardChar,
        EmacsBuiltin::DescribeBindings,
        EmacsBuiltin::DescribeKey,
        EmacsBuiltin::EndOfBuffer,
        EmacsBuiltin::ExchangePointAndMark,
        EmacsBuiltin::ExecuteExtendedCommand,
        EmacsBuiltin::ExitMinibuffer,
        EmacsBuiltin::ExitTextMode,
        EmacsBuiltin::Feedback,
        EmacsBuiltin::ForwardChar,
        EmacsBuiltin::ForwardSexp,
        EmacsBuiltin::ForwardWord,
        EmacsBuiltin::GotoLine,
        EmacsBuiltin::HerdrOnboarding,
        EmacsBuiltin::InterruptProcess,
        EmacsBuiltin::IsearchBackward,
        EmacsBuiltin::IsearchDeleteChar,
        EmacsBuiltin::IsearchExit,
        EmacsBuiltin::IsearchForward,
        EmacsBuiltin::IsearchNextHistory,
        EmacsBuiltin::IsearchPreviousHistory,
        EmacsBuiltin::KeyboardQuit,
        EmacsBuiltin::KillBeginningOfLine,
        EmacsBuiltin::KillLine,
        EmacsBuiltin::KillRegion,
        EmacsBuiltin::KillRingSave,
        EmacsBuiltin::MarkWholeInput,
        EmacsBuiltin::MoveBeginningOfLine,
        EmacsBuiltin::MoveEndOfLine,
        EmacsBuiltin::MoveTabLeft,
        EmacsBuiltin::MoveTabRight,
        EmacsBuiltin::NextLine,
        EmacsBuiltin::OpenAtPoint,
        EmacsBuiltin::PreviousLine,
        EmacsBuiltin::QuotedInsert,
        EmacsBuiltin::RecenterTopBottom,
        EmacsBuiltin::RefreshHerdr,
        EmacsBuiltin::ScrollDown,
        EmacsBuiltin::ScrollUp,
        EmacsBuiltin::SetMark,
        EmacsBuiltin::TextMode,
        EmacsBuiltin::UniversalArgument,
        EmacsBuiltin::Yank,
        EmacsBuiltin::YankPop,
    ]
}

fn builtins() -> (r: Vec<EmacsBuiltin>)
    ensures
        r@ == builtin_order(),
{
    vec![
        EmacsBuiltin::BackwardChar,
        EmacsBuiltin::BackwardKillWord,
        EmacsBuiltin::BackwardSexp,
        EmacsBuiltin::BackwardWord,
        EmacsBuiltin::BeginningOfBuffer,
        EmacsBuiltin::DeleteBackwardChar,
        EmacsBuiltin::DeleteForwardChar,
        EmacsBuiltin::DescribeBindings,
        EmacsBuiltin::DescribeKey,
        EmacsBuiltin::EndOfBuffer,
        EmacsBuiltin::ExchangePointAndMark,
        EmacsBuiltin::ExecuteExtendedCommand,
        EmacsBuiltin::ExitMinibuffer,
        EmacsBuiltin::ExitTextMode,
        EmacsBuiltin::Feedback,
        EmacsBuiltin::ForwardChar,
        EmacsBuiltin::ForwardSexp,
        EmacsBuiltin::ForwardWord,
        EmacsBuiltin::GotoLine,
        EmacsBuiltin::HerdrOnboarding,
        EmacsBuiltin::InterruptProcess,
        EmacsBuiltin::IsearchBackward,
        EmacsBuiltin::IsearchDeleteChar,
        EmacsBuiltin::IsearchExit,
        EmacsBuiltin::IsearchForward,
        EmacsBuiltin::IsearchNextHistory,
        EmacsBuiltin::IsearchPreviousHistory,
        EmacsBuiltin::KeyboardQuit,
        EmacsBuiltin::KillBeginningOfLine,
        EmacsBuiltin::KillLine,
        EmacsBuiltin::KillRegion,
        EmacsBuiltin::KillRingSave,
        EmacsBuiltin::MarkWholeInput,
        EmacsBuiltin::MoveBeginningOfLine,
        EmacsBuiltin::MoveEndOfLine,
        EmacsBuiltin::MoveTabLeft,
        EmacsBuiltin::MoveTabRight,
        EmacsBuiltin::NextLine,
        EmacsBuiltin::OpenAtPoint,
        EmacsBuiltin::PreviousLine,
        EmacsBuiltin::QuotedInsert,
        EmacsBuiltin::RecenterTopBottom,
        EmacsBuiltin::RefreshHerdr,
        EmacsBuiltin::ScrollDown,
        EmacsBuiltin::ScrollUp,
        EmacsBuiltin::SetMark,
        EmacsBuiltin::TextMode,
        EmacsBuiltin::UniversalArgument,
        EmacsBuiltin::Yank,
        EmacsBuiltin::YankPop,
    ]
}

/// Every builtin with its name, sorted by name.
pub fn builtin_names() -> (r: Vec<(EmacsBuiltin, &'static str)>)
    ensures
        r@.len() == builtin_order().len(),
        forall|i: int|
            #![trigger r@[i]]
            0 <= i < r@.len() ==> r@[i].0 == builtin_order()[i] && r@[i].1@ == builtin_name(r@[i].0),
        forall|i: int, j: int|
            #![trigger r@[i], r@[j]]
            0 <= i < j < r@.len() ==> text_before(r@[i].1@, r@[j].1@),
{
    let all = builtins();
    let mut out: Vec<(EmacsBuiltin, &'static str)> = Vec::new();
    let mut i: usize = 0;
    while i < all.len()
        invariant
            i <= all@.len(),
            all@ == builtin_order(),
            out@.len() == i,
            forall|k: int|
                #![trigger out@[k]]
                0 <= k < i ==> out@[k].0 == builtin_order()[k] && out@[k].1@ == builtin_name(
                    out@[k].0,
                ),
        decreases all@.len() - i,
    {
        out.push((all[i], all[i].name()));
        i += 1;
    }
    proof {
        assert forall|i: int, j: int|
            #![trigger out@[i], out@[j]]
            0 <= i < j < out@.len() implies text_before(out@[i].1@, out@[j].1@) by {
            builtins_are_sorted(i, j);
        }
    }
    out
}

/// The keymap that an override for a command lands in.
#[derive(Debug, Clone, Copy, PartialEq, Eq, Structural)]
pub enum MapSlot {
    /// The live map, which every other map falls through to.
    Global,
    /// Text mode only: in live mode the key belongs to the pane.
    Text,
    /// The live map and the text map.
    Both,
    /// Minibuffer editing only.
    Minibuffer,
    /// Incremental search editing only.
    Isearch,
}

/// Where an override for a builtin binds it.
pub open spec fn builtin_slot(builtin: EmacsBuiltin) -> MapSlot {
    match builtin {
        EmacsBuiltin::UniversalArgument
        | EmacsBuiltin::ExecuteExtendedCommand
        | EmacsBuiltin::Feedback
        | EmacsBuiltin::HerdrOnboarding
        | EmacsBuiltin::InterruptProcess
        | EmacsBuiltin::KeyboardQuit
        | EmacsBuiltin::OpenAtPoint
        | EmacsBuiltin::QuotedInsert
        | EmacsBuiltin::RefreshHerdr
        | EmacsBuiltin::MoveTabLeft
        | EmacsBuiltin::MoveTabRight
        | EmacsBuiltin::TextMode
        | EmacsBuiltin::IsearchForward
        | EmacsBuiltin::IsearchBackward => MapSlot::Global,
        EmacsBuiltin::ExitTextMode
        | EmacsBuiltin::ForwardChar
        | EmacsBuiltin::BackwardChar
        | EmacsBuiltin::NextLine
        | EmacsBuiltin::PreviousLine
        | EmacsBuiltin::ForwardWord
        | EmacsBuiltin::BackwardWord
        | EmacsBuiltin::ForwardSexp
        | EmacsBuiltin::BackwardSexp
        | EmacsBuiltin::MoveBeginningOfLine
        | EmacsBuiltin::MoveEndOfLine
        | EmacsBuiltin::RecenterTopBottom
        | EmacsBuiltin::ScrollUp
        | EmacsBuiltin::ScrollDown
        | EmacsBuiltin::BeginningOfBuffer
        | EmacsBuiltin::EndOfBuffer
        | EmacsBuiltin::GotoLine
        | EmacsBuiltin::SetMark
        | EmacsBuiltin::ExchangePointAndMark
        | EmacsBuiltin::KillRingSave
        | EmacsBuiltin::KillRegion => MapSlot::Text,
        EmacsBuiltin::Yank
        | EmacsBuiltin::YankPop
        | EmacsBuiltin::DescribeKey
        | EmacsBuiltin::DescribeBindings => MapSlot::Both,
        EmacsBuiltin::DeleteBackwardChar
        | EmacsBuiltin::DeleteForwardChar
        | EmacsBuiltin::KillBeginningOfLine
        | EmacsBuiltin::KillLine
        | EmacsBuiltin::BackwardKillWord
        | EmacsBuiltin::MarkWholeInput
        | EmacsBuiltin::ExitMinibuffer => MapSlot::Minibuffer,
        EmacsBuiltin::IsearchExit
        | EmacsBuiltin::IsearchDeleteChar
        | EmacsBuiltin::IsearchPreviousHistory
        | EmacsBuiltin::IsearchNextHistory => MapSlot::Isearch,
    }
}

impl EmacsBuiltin {
    pub fn name(self) -> (r: &'static str)
        ensures
            r@ == builtin_name(self),
    {
        match self {
            EmacsBuiltin::UniversalArgument => "universal-argument",
            EmacsBuiltin::ExecuteExtendedCommand => "execute-extended-command",
            EmacsBuiltin::Feedback => "feedback",
            EmacsBuiltin::HerdrOnboarding => "herdr-onboarding",
            EmacsBuiltin::InterruptProcess => "interrupt-process",
            EmacsBuiltin::KeyboardQuit => "keyboard-quit",
            EmacsBuiltin::OpenAtPoint => "open-at-point",
            EmacsBuiltin::QuotedInsert => "quoted-insert",
            EmacsBuiltin::RefreshHerdr => "refresh-herdr",
            EmacsBuiltin::MoveTabLeft => "move-tab-left",
            EmacsBuiltin::MoveTabRight => "move-tab-right",
            EmacsBuiltin::TextMode => "text-mode",
            EmacsBuiltin::ExitTextMode => "exit-text-mode",
            EmacsBuiltin::ForwardChar => "forward-char",
            EmacsBuiltin::BackwardChar => "backward-char",
            EmacsBuiltin::NextLine => "next-line",
            EmacsBuiltin::PreviousLine => "previous-line",
            EmacsBuiltin::ForwardWord => "forward-word",
            EmacsBuiltin::BackwardWord => "backward-word",
            EmacsBuiltin::ForwardSexp => "forward-sexp",
            EmacsBuiltin::BackwardSexp => "backward-sexp",
            EmacsBuiltin::MoveBeginningOfLine => "move-beginning-of-line",
            EmacsBuiltin::MoveEndOfLine => "move-end-of-line",
            EmacsBuiltin::RecenterTopBottom => "recenter-top-bottom",
            EmacsBuiltin::ScrollUp => "scroll-up",
            EmacsBuiltin::ScrollDown => "scroll-down",
            EmacsBuiltin::BeginningOfBuffer => "beginning-of-buffer",
            EmacsBuiltin::EndOfBuffer => "end-of-buffer",
            EmacsBuiltin::GotoLine => "goto-line",
            EmacsBuiltin::IsearchForward => "isearch-forward",
            EmacsBuiltin::IsearchBackward => "isearch-backward",
            EmacsBuiltin::SetMark => "set-mark-command",
            EmacsBuiltin::ExchangePointAndMark => "exchange-point-and-mark",
            EmacsBuiltin::KillRingSave => "kill-ring-save",
            EmacsBuiltin::KillRegion => "kill-region",
            EmacsBuiltin::Yank => "yank",
            EmacsBuiltin::YankPop => "yank-pop",
            EmacsBuiltin::DeleteBackwardChar => "delete-backward-char",
            EmacsBuiltin::DeleteForwardChar => "delete-forward-char",
            EmacsBuiltin::KillBeginningOfLine => "kill-beginning-of-line",
            EmacsBuiltin::KillLine => "kill-line",
            EmacsBuiltin::BackwardKillWord => "backward-kill-word",
            EmacsBuiltin::MarkWholeInput => "mark-whole-input",
            EmacsBuiltin::ExitMinibuffer => "exit-minibuffer",
            EmacsBuiltin::IsearchExit => "isearch-exit",
            EmacsBuiltin::IsearchDeleteChar => "isearch-delete-char",
            EmacsBuiltin::IsearchPreviousHistory => "isearch-previous-history",
            EmacsBuiltin::IsearchNextHistory => "isearch-next-history",
            EmacsBuiltin::DescribeKey => "describe-key",
            EmacsBuiltin::DescribeBindings => "describe-bindings",
        }
    }

    /// Where an override for the builtin binds it.
    pub fn default_map(self) -> (r: MapSlot)
        ensures
            r == builtin_slot(self),
    {
        match self {
            EmacsBuiltin::UniversalArgument
            | EmacsBuiltin::ExecuteExtendedCommand
            | EmacsBuiltin::Feedback
            | EmacsBuiltin::HerdrOnboarding
            | EmacsBuiltin::InterruptProcess
            | EmacsBuiltin::KeyboardQuit
            | EmacsBuiltin::OpenAtPoint
            | EmacsBuiltin::QuotedInsert
            | EmacsBuiltin::RefreshHerdr
            | EmacsBuiltin::MoveTabLeft
            | EmacsBuiltin::MoveTabRight
            | EmacsBuiltin::TextMode
            | EmacsBuiltin::IsearchForward
            | EmacsBuiltin::IsearchBackward => MapSlot::Global,
            EmacsBuiltin::ExitTextMode
            | EmacsBuiltin::ForwardChar
            | EmacsBuiltin::BackwardChar
            | EmacsBuiltin::NextLine
            | EmacsBuiltin::PreviousLine
            | EmacsBuiltin::ForwardWord
            | EmacsBuiltin::BackwardWord
            | EmacsBuiltin::ForwardSexp
            | EmacsBuiltin::BackwardSexp
            | EmacsBuiltin::MoveBeginningOfLine
            | EmacsBuiltin::MoveEndOfLine
            | EmacsBuiltin::RecenterTopBottom
            | EmacsBuiltin::ScrollUp
            | EmacsBuiltin::ScrollDown
            | EmacsBuiltin::BeginningOfBuffer
            | EmacsBuiltin::EndOfBuffer
            | EmacsBuiltin::GotoLine
            | EmacsBuiltin::SetMark
            | EmacsBuiltin::ExchangePointAndMark
            | EmacsBuiltin::KillRingSave
            | EmacsBuiltin::KillRegion => MapSlot::Text,
            EmacsBuiltin::Yank
            | EmacsBuiltin::YankPop
            | EmacsBuiltin::DescribeKey
            | EmacsBuiltin::DescribeBindings => MapSlot::Both,
            EmacsBuiltin::DeleteBackwardChar
            | EmacsBuiltin::DeleteForwardChar
            | EmacsBuiltin::KillBeginningOfLine
            | EmacsBuiltin::KillLine
            | EmacsBuiltin::BackwardKillWord
            | EmacsBuiltin::MarkWholeInput
            | EmacsBuiltin::ExitMinibuffer => MapSlot::Minibuffer,
            EmacsBuiltin::IsearchExit
            | EmacsBuiltin::IsearchDeleteChar
            | EmacsBuiltin::IsearchPreviousHistory
            | EmacsBuiltin::IsearchNextHistory => MapSlot::Isearch,
        }
    }
}

/// A command: a builtin of the layer or a navigate action.
#[derive(Debug, Clone, Copy, PartialEq, Eq, Structural)]
pub enum EmacsCommand {
    Builtin(EmacsBuiltin),
    Herdr(NavigateAction),
}

/// The command that a name stands for; one with an index stands at zero.
pub open spec fn command_called(name: Seq<char>) -> Option<EmacsCommand> {
    if exists|c: EmacsCommand| #[trigger] c.is_called(name) {
        Some(choose|c: EmacsCommand| #[trigger] c.is_called(name))
    } else {
        None
    }
}

impl EmacsCommand {
    /// The name alone stands for the command.
    pub open spec fn is_called(self, name: Seq<char>) -> bool {
        self.nominal() && self.command_name() == name
    }

    pub open spec fn command_name(self) -> Seq<char> {
        match self {
            EmacsCommand::Builtin(builtin) => builtin_name(builtin),
            EmacsCommand::Herdr(action) => action_name(action),
        }
    }

    /// The command is one that a name alone can stand for.
    pub open spec fn nominal(self) -> bool {
        self matches EmacsCommand::Herdr(action) ==> at_index_zero(action)
    }

    pub open spec fn slot(self) -> MapSlot {
        match self {
            EmacsCommand::Builtin(builtin) => builtin_slot(builtin),
            EmacsCommand::Herdr(_) => MapSlot::Global,
        }
    }

    pub fn name(self) -> (r: &'static str)
        ensures
            r@ == self.command_name(),
    {
        match self {
            EmacsCommand::Builtin(builtin) => builtin.name(),
            EmacsCommand::Herdr(action) => herdr_command_name(action),
        }
    }

    /// The command called `name`.
    pub fn from_name(name: &str) -> (r: Option<Self>)
        ensures
            r == command_called(name@),
            r matches Some(c) ==> c.command_name() == name@ && c.nominal(),
            r is None ==> forall|c: EmacsCommand| (#[trigger] c.command_name()) != name@,
    {
        if let Some(builtin) = builtin_called(name) {
            proof {
                names_stand_for_commands(EmacsCommand::Builtin(builtin));
            }
            return Some(EmacsCommand::Builtin(builtin));
        }
        match action_called(name) {
            Some(action) => {
                proof {
                    names_stand_for_commands(EmacsCommand::Herdr(action));
                }
                Some(EmacsCommand::Herdr(action))
            },
            None => None,
        }
    }

    /// Where an override for the command binds it.
    pub fn map_slot(self) -> (r: MapSlot)
        ensures
            r == self.slot(),
    {
        match self {
            EmacsCommand::Builtin(builtin) => builtin.default_map(),
            EmacsCommand::Herdr(_) => MapSlot::Global,
        }
    }
}

fn builtin_called(name: &str) -> (r: Option<EmacsBuiltin>)
    ensures
        r matches Some(b) ==> builtin_name(b) == name@,
        r is None ==> forall|b: EmacsBuiltin| #[trigger] builtin_name(b) != name@,
{
    if same_text(name, "backward-char") {
        return Some(EmacsBuiltin::BackwardChar);
    }
    if same_text(name, "backward-kill-word") {
        return Some(EmacsBuiltin::BackwardKillWord);
    }
    if same_text(name, "backward-sexp") {
        return Some(EmacsBuiltin::BackwardSexp);
    }
    if same_text(name, "backward-word") {
        return Some(EmacsBuiltin::BackwardWord);
    }
    if same_text(name, "beginning-of-buffer") {
        return Some(EmacsBuiltin::BeginningOfBuffer);
    }
    if same_text(name, "delete-backward-char") {
        return Some(EmacsBuiltin::DeleteBackwardChar);
    }
    if same_text(name, "delete-forward-char") {
        return Some(EmacsBuiltin::DeleteForwardChar);
    }
    if same_text(name, "describe-bindings") {
        return Some(EmacsBuiltin::DescribeBindings);
    }
    if same_text(name, "describe-key") {
        return Some(EmacsBuiltin::DescribeKey);
    }
    if same_text(name, "end-of-buffer") {
        return Some(EmacsBuiltin::EndOfBuffer);
    }
    if same_text(name, "exchange-point-and-mark") {
        return Some(EmacsBuiltin::ExchangePointAndMark);
    }
    if same_text(name, "execute-extended-command") {
        return Some(EmacsBuiltin::ExecuteExtendedCommand);
    }
    if same_text(name, "exit-minibuffer") {
        return Some(EmacsBuiltin::ExitMinibuffer);
    }
    if same_text(name, "exit-text-mode") {
        return Some(EmacsBuiltin::ExitTextMode);
    }
    if same_text(name, "feedback") {
        return Some(EmacsBuiltin::Feedback);
    }
    if same_text(name, "forward-char") {
        return Some(EmacsBuiltin::ForwardChar);
    }
    if same_text(name, "forward-sexp") {
        return Some(EmacsBuiltin::ForwardSexp);
    }
    if same_text(name, "forward-word") {
        return Some(EmacsBuiltin::ForwardWord);
    }
    if same_text(name, "goto-line") {
        return Some(EmacsBuiltin::GotoLine);
    }
    if same_text(name, "herdr-onboarding") {
        return Some(EmacsBuiltin::HerdrOnboarding);
    }
    if same_text(name, "interrupt-process") {
        return Some(EmacsBuiltin::InterruptProcess);
    }
    if same_text(name, "isearch-backward") {
        return Some(EmacsBuiltin::IsearchBackward);
    }
    if same_text(name, "isearch-delete-char") {
        return Some(EmacsBuiltin::IsearchDeleteChar);
    }
    if same_text(name, "isearch-exit") {
        return Some(EmacsBuiltin::IsearchExit);
    }
    if same_text(name, "isearch-forward") {
        return Some(EmacsBuiltin::IsearchForward);
    }
    if same_text(name, "isearch-next-history") {
        return Some(EmacsBuiltin::IsearchNextHistory);
    }
    if same_text(name, "isearch-previous-history") {
        return Some(EmacsBuiltin::IsearchPreviousHistory);
    }
    if same_text(name, "keyboard-quit") {
        return Some(EmacsBuiltin::KeyboardQuit);
    }
    if same_text(name, "kill-beginning-of-line") {
        return Some(EmacsBuiltin::KillBeginningOfLine);
    }
    if same_text(name, "kill-line") {
        return Some(EmacsBuiltin::KillLine);
    }
    if same_text(name, "kill-region") {
        return Some(EmacsBuiltin::KillRegion);
    }
    if same_text(name, "kill-ring-save") {
        return Some(EmacsBuiltin::KillRingSave);
    }
    if same_text(name, "mark-whole-input") {
        return Some(EmacsBuiltin::MarkWholeInput);
    }
    if same_text(name, "move-tab-left") {
        return Some(EmacsBuiltin::MoveTabLeft);
    }
    if same_text(name, "move-tab-right") {
        return Some(EmacsBuiltin::MoveTabRight);
    }
    if same_text(name, "move-beginning-of-line") {
        return Some(EmacsBuiltin::MoveBeginningOfLine);
    }
    if same_text(name, "move-end-of-line") {
        return Some(EmacsBuiltin::MoveEndOfLine);
    }
    if same_text(name, "next-line") {
        return Some(EmacsBuiltin::NextLine);
    }
    if same_text(name, "open-at-point") {
        return Some(EmacsBuiltin::OpenAtPoint);
    }
    if same_text(name, "previous-line") {
        return Some(EmacsBuiltin::PreviousLine);
    }
    if same_text(name, "quoted-insert") {
        return Some(EmacsBuiltin::QuotedInsert);
    }
    if same_text(name, "recenter-top-bottom") {
        return Some(EmacsBuiltin::RecenterTopBottom);
    }
    if same_text(name, "refresh-herdr") {
        return Some(EmacsBuiltin::RefreshHerdr);
    }
    if same_text(name, "scroll-down") {
        return Some(EmacsBuiltin::ScrollDown);
    }
    if same_text(name, "scroll-up") {
        return Some(EmacsBuiltin::ScrollUp);
    }
    if same_text(name, "set-mark-command") {
        return Some(EmacsBuiltin::SetMark);
    }
    if same_text(name, "text-mode") {
        return Some(EmacsBuiltin::TextMode);
    }
    if same_text(name, "universal-argument") {
        return Some(EmacsBuiltin::UniversalArgument);
    }
    if same_text(name, "yank") {
        return Some(EmacsBuiltin::Yank);
    }
    if same_text(name, "yank-pop") {
        return Some(EmacsBuiltin::YankPop);
    }
    None
}

fn action_called(name: &str) -> (r: Option<NavigateAction>)
    ensures
        r matches Some(a) ==> action_name(a) == name@ && at_index_zero(a),
        r is None ==> forall|a: NavigateAction| #[trigger] action_name(a) != name@,
{
    if same_text(name, "split-window-right") {
        return Some(NavigateAction::SplitVertical);
    }
    if same_text(name, "split-window-below") {
        return Some(NavigateAction::SplitHorizontal);
    }
    if same_text(name, "delete-window") {
        return Some(NavigateAction::ClosePane);
    }
    if same_text(name, "delete-other-windows") {
        return Some(NavigateAction::Zoom);
    }
    if same_text(name, "other-window") {
        return Some(NavigateAction::CyclePaneNext);
    }
    if same_text(name, "previous-window") {
        return Some(NavigateAction::CyclePanePrevious);
    }
    if same_text(name, "switch-to-buffer") {
        return Some(NavigateAction::OpenNavigator);
    }
    if same_text(name, "windmove-left") {
        return Some(NavigateAction::FocusPaneLeft);
    }
    if same_text(name, "windmove-down") {
        return Some(NavigateAction::FocusPaneDown);
    }
    if same_text(name, "windmove-up") {
        return Some(NavigateAction::FocusPaneUp);
    }
    if same_text(name, "windmove-right") {
        return Some(NavigateAction::FocusPaneRight);
    }
    if same_text(name, "windmove-swap-states-left") {
        return Some(NavigateAction::SwapPaneLeft);
    }
    if same_text(name, "windmove-swap-states-down") {
        return Some(NavigateAction::SwapPaneDown);
    }
    if same_text(name, "windmove-swap-states-up") {
        return Some(NavigateAction::SwapPaneUp);
    }
    if same_text(name, "windmove-swap-states-right") {
        return Some(NavigateAction::SwapPaneRight);
    }
    if same_text(name, "kill-tab") {
        return Some(NavigateAction::CloseTab);
    }
    if same_text(name, "new-workspace") {
        return Some(NavigateAction::NewWorkspace);
    }
    if same_text(name, "new-worktree") {
        return Some(NavigateAction::NewWorktree);
    }
    if same_text(name, "open-worktree") {
        return Some(NavigateAction::OpenWorktree);
    }
    if same_text(name, "remove-worktree") {
        return Some(NavigateAction::RemoveWorktree);
    }
    if same_text(name, "rename-workspace") {
        return Some(NavigateAction::RenameWorkspace);
    }
    if same_text(name, "close-workspace") {
        return Some(NavigateAction::CloseWorkspace);
    }
    if same_text(name, "workspace-picker") {
        return Some(NavigateAction::WorkspacePicker);
    }
    if same_text(name, "previous-workspace") {
        return Some(NavigateAction::PreviousWorkspace);
    }
    if same_text(name, "next-workspace") {
        return Some(NavigateAction::NextWorkspace);
    }
    if same_text(name, "previous-agent") {
        return Some(NavigateAction::PreviousAgent);
    }
    if same_text(name, "next-agent") {
        return Some(NavigateAction::NextAgent);
    }
    if same_text(name, "new-tab") {
        return Some(NavigateAction::NewTab);
    }
    if same_text(name, "rename-tab") {
        return Some(NavigateAction::RenameTab);
    }
    if same_text(name, "previous-tab") {
        return Some(NavigateAction::PreviousTab);
    }
    if same_text(name, "next-tab") {
        return Some(NavigateAction::NextTab);
    }
    if same_text(name, "rename-pane") {
        return Some(NavigateAction::RenamePane);
    }
    if same_text(name, "edit-scrollback") {
        return Some(NavigateAction::EditScrollback);
    }
    if same_text(name, "copy-mode") {
        return Some(NavigateAction::CopyMode);
    }
    if same_text(name, "resize-mode") {
        return Some(NavigateAction::EnterResizeMode);
    }
    if same_text(name, "toggle-sidebar") {
        return Some(NavigateAction::ToggleSidebar);
    }
    if same_text(name, "last-pane") {
        return Some(NavigateAction::LastPane);
    }
    if same_text(name, "herdr-help") {
        return Some(NavigateAction::Help);
    }
    if same_text(name, "settings") {
        return Some(NavigateAction::Settings);
    }
    if same_text(name, "reload-config") {
        return Some(NavigateAction::ReloadConfig);
    }
    if same_text(name, "reset-federation-connections") {
        return Some(NavigateAction::ResetFederationConnections);
    }
    if same_text(name, "open-navigator-notification-target") {
        return Some(NavigateAction::OpenNotificationTarget);
    }
    if same_text(name, "detach") {
        return Some(NavigateAction::Detach);
    }
    if same_text(name, "switch-workspace") {
        return Some(NavigateAction::SwitchWorkspace(0));
    }
    if same_text(name, "switch-tab") {
        return Some(NavigateAction::SwitchTab(0));
    }
    if same_text(name, "focus-agent") {
        return Some(NavigateAction::FocusAgent(0));
    }
    None
}

/// Names tell commands apart, but for the index of a navigate action: two commands that a name
/// alone can stand for have different names.
pub proof fn command_names_are_unique(a: EmacsCommand, b: EmacsCommand)
    requires
        a.nominal(),
        b.nominal(),
        a.command_name() == b.command_name(),
    ensures
        a == b,
{
    reveal_strlit("split-window-right");
    reveal_strlit("split-window-below");
    reveal_strlit("delete-window");
    reveal_strlit("delete-other-windows");
    reveal_strlit("other-window");
    reveal_strlit("previous-window");
    reveal_strlit("switch-to-buffer");
    reveal_strlit("windmove-left");
    reveal_strlit("windmove-down");
    reveal_strlit("windmove-up");
    reveal_strlit("windmove-right");
    reveal_strlit("windmove-swap-states-left");
    reveal_strlit("windmove-swap-states-down");
    reveal_strlit("windmove-swap-states-up");
    reveal_strlit("windmove-swap-states-right");
    reveal_strlit("kill-tab");
    reveal_strlit("new-workspace");
    reveal_strlit("new-worktree");
    reveal_strlit("open-worktree");
    reveal_strlit("remove-worktree");
    reveal_strlit("rename-workspace");
    reveal_strlit("close-workspace");
    reveal_strlit("workspace-picker");
    reveal_strlit("previous-workspace");
    reveal_strlit("next-workspace");
    reveal_strlit("previous-agent");
    reveal_strlit("next-agent");
    reveal_strlit("new-tab");
    reveal_strlit("rename-tab");
    reveal_strlit("previous-tab");
    reveal_strlit("next-tab");
    reveal_strlit("rename-pane");
    reveal_strlit("edit-scrollback");
    reveal_strlit("copy-mode");
    reveal_strlit("resize-mode");
    reveal_strlit("toggle-sidebar");
    reveal_strlit("last-pane");
    reveal_strlit("herdr-help");
    reveal_strlit("settings");
    reveal_strlit("reload-config");
    reveal_strlit("reset-federation-connections");
    reveal_strlit("open-navigator-notification-target");
    reveal_strlit("detach");
    reveal_strlit("switch-workspace");
    reveal_strlit("switch-tab");
    reveal_strlit("focus-agent");
    reveal_strlit("backward-char");
    reveal_strlit("backward-kill-word");
    reveal_strlit("backward-sexp");
    reveal_strlit("backward-word");
    reveal_strlit("beginning-of-buffer");
    reveal_strlit("delete-backward-char");
    reveal_strlit("delete-forward-char");
    reveal_strlit("describe-bindings");
    reveal_strlit("describe-key");
    reveal_strlit("end-of-buffer");
    reveal_strlit("exchange-point-and-mark");
    reveal_strlit("execute-extended-command");
    reveal_strlit("exit-minibuffer");
    reveal_strlit("exit-text-mode");
    reveal_strlit("feedback");
    reveal_strlit("forward-char");
    reveal_strlit("forward-sexp");
    reveal_strlit("forward-word");
    reveal_strlit("goto-line");
    reveal_strlit("herdr-onboarding");
    reveal_strlit("interrupt-process");
    reveal_strlit("isearch-backward");
    reveal_strlit("isearch-delete-char");
    reveal_strlit("isearch-exit");
    reveal_strlit("isearch-forward");
    reveal_strlit("isearch-next-history");
    reveal_strlit("isearch-previous-history");
    reveal_strlit("keyboard-quit");
    reveal_strlit("kill-beginning-of-line");
    reveal_strlit("kill-line");
    reveal_strlit("kill-region");
    reveal_strlit("kill-ring-save");
    reveal_strlit("mark-whole-input");
    reveal_strlit("move-tab-left");
    reveal_strlit("move-tab-right");
    reveal_strlit("move-beginning-of-line");
    reveal_strlit("move-end-of-line");
    reveal_strlit("next-line");
    reveal_strlit("open-at-point");
    reveal_strlit("previous-line");
    reveal_strlit("quoted-insert");
    reveal_strlit("recenter-top-bottom");
    reveal_strlit("refresh-herdr");
    reveal_strlit("scroll-down");
    reveal_strlit("scroll-up");
    reveal_strlit("set-mark-command");
    reveal_strlit("text-mode");
    reveal_strlit("universal-argument");
    reveal_strlit("yank");
    reveal_strlit("yank-pop");
    assert("split-window-right"@.len() == 18);
    assert("split-window-right"@[0] == 's');
    assert("split-window-right"@[9] == 'd');
    assert("split-window-right"@[13] == 'r');
    assert("split-window-below"@.len() == 18);
    assert("split-window-below"@[0] == 's');
    assert("split-window-below"@[9] == 'd');
    assert("split-window-below"@[13] == 'b');
    assert("delete-window"@.len() == 13);
    assert("delete-window"@[0] == 'd');
    assert("delete-window"@[9] == 'n');
    assert("delete-other-windows"@.len() == 20);
    assert("delete-other-windows"@[0] == 'd');
    assert("delete-other-windows"@[9] == 'h');
    assert("delete-other-windows"@[13] == 'w');
    assert("other-window"@.len() == 12);
    assert("other-window"@[0] == 'o');
    assert("other-window"@[9] == 'd');
    assert("previous-window"@.len() == 15);
    assert("previous-window"@[0] == 'p');
    assert("previous-window"@[9] == 'w');
    assert("previous-window"@[13] == 'o');
    assert("switch-to-buffer"@.len() == 16);
    assert("switch-to-buffer"@[0] == 's');
    assert("switch-to-buffer"@[9] == '-');
    assert("switch-to-buffer"@[13] == 'f');
    assert("windmove-left"@.len() == 13);
    assert("windmove-left"@[0] == 'w');
    assert("windmove-left"@[9] == 'l');
    assert("windmove-down"@.len() == 13);
    assert("windmove-down"@[0] == 'w');
    assert("windmove-down"@[9] == 'd');
    assert("windmove-up"@.len() == 11);
    assert("windmove-up"@[0] == 'w');
    assert("windmove-up"@[9] == 'u');
    assert("windmove-right"@.len() == 14);
    assert("windmove-right"@[0] == 'w');
    assert("windmove-right"@[9] == 'r');
    assert("windmove-right"@[13] == 't');
    assert("windmove-swap-states-left"@.len() == 25);
    assert("windmove-swap-states-left"@[0] == 'w');
    assert("windmove-swap-states-left"@[9] == 's');
    assert("windmove-swap-states-left"@[13] == '-');
    assert("windmove-swap-states-left"@[21] == 'l');
    assert("windmove-swap-states-down"@.len() == 25);
    assert("windmove-swap-states-down"@[0] == 'w');
    assert("windmove-swap-states-down"@[9] == 's');
    assert("windmove-swap-states-down"@[13] == '-');
    assert("windmove-swap-states-down"@[21] == 'd');
    assert("windmove-swap-states-up"@.len() == 23);
    assert("windmove-swap-states-up"@[0] == 'w');
    assert("windmove-swap-states-up"@[9] == 's');
    assert("windmove-swap-states-up"@[13] == '-');
    assert("windmove-swap-states-up"@[21] == 'u');
    assert("windmove-swap-states-right"@.len() == 26);
    assert("kill-tab"@.len() == 8);
    assert("kill-tab"@[0] == 'k');
    assert("new-workspace"@.len() == 13);
    assert("new-workspace"@[0] == 'n');
    assert("new-workspace"@[9] == 'p');
    assert("new-worktree"@.len() == 12);
    assert("new-worktree"@[0] == 'n');
    assert("new-worktree"@[9] == 'r');
    assert("open-worktree"@.len() == 13);
    assert("open-worktree"@[0] == 'o');
    assert("open-worktree"@[9] == 't');
    assert("remove-worktree"@.len() == 15);
    assert("remove-worktree"@[0] == 'r');
    assert("remove-worktree"@[9] == 'r');
    assert("remove-worktree"@[13] == 'e');
    assert("rename-workspace"@.len() == 16);
    assert("rename-workspace"@[0] == 'r');
    assert("rename-workspace"@[9] == 'r');
    assert("rename-workspace"@[13] == 'a');
    assert("close-workspace"@.len() == 15);
    assert("close-workspace"@[0] == 'c');
    assert("close-workspace"@[9] == 'k');
    assert("close-workspace"@[13] == 'c');
    assert("workspace-picker"@.len() == 16);
    assert("workspace-picker"@[0] == 'w');
    assert("workspace-picker"@[9] == '-');
    assert("workspace-picker"@[13] == 'k');
    assert("previous-workspace"@.len() == 18);
    assert("previous-workspace"@[0] == 'p');
    assert("previous-workspace"@[9] == 'w');
    assert("previous-workspace"@[13] == 's');
    assert("next-workspace"@.len() == 14);
    assert("next-workspace"@[0] == 'n');
    assert("next-workspace"@[9] == 's');
    assert("next-workspace"@[13] == 'e');
    assert("previous-agent"@.len() == 14);
    assert("previous-agent"@[0] == 'p');
    assert("previous-agent"@[9] == 'a');
    assert("previous-agent"@[13] == 't');
    assert("next-agent"@.len() == 10);
    assert("next-agent"@[0] == 'n');
    assert("next-agent"@[9] == 't');
    assert("new-tab"@.len() == 7);
    assert("rename-tab"@.len() == 10);
    assert("rename-tab"@[0] == 'r');
    assert("rename-tab"@[9] == 'b');
    assert("previous-tab"@.len() == 12);
    assert("previous-tab"@[0] == 'p');
    assert("previous-tab"@[9] == 't');
    assert("next-tab"@.len() == 8);
    assert("next-tab"@[0] == 'n');
    assert("rename-pane"@.len() == 11);
    assert("rename-pane"@[0] == 'r');
    assert("rename-pane"@[9] == 'n');
    assert("edit-scrollback"@.len() == 15);
    assert("edit-scrollback"@[0] == 'e');
    assert("edit-scrollback"@[9] == 'l');
    assert("edit-scrollback"@[13] == 'c');
    assert("copy-mode"@.len() == 9);
    assert("copy-mode"@[0] == 'c');
    assert("resize-mode"@.len() == 11);
    assert("resize-mode"@[0] == 'r');
    assert("resize-mode"@[9] == 'd');
    assert("toggle-sidebar"@.len() == 14);
    assert("toggle-sidebar"@[0] == 't');
    assert("toggle-sidebar"@[9] == 'd');
    assert("toggle-sidebar"@[13] == 'r');
    assert("last-pane"@.len() == 9);
    assert("last-pane"@[0] == 'l');
    assert("herdr-help"@.len() == 10);
    assert("herdr-help"@[0] == 'h');
    assert("herdr-help"@[9] == 'p');
    assert("settings"@.len() == 8);
    assert("settings"@[0] == 's');
    assert("reload-config"@.len() == 13);
    assert("reload-config"@[0] == 'r');
    assert("reload-config"@[9] == 'n');
    assert("reset-federation-connections"@.len() == 28);
    assert("open-navigator-notification-target"@.len() == 34);
    assert("detach"@.len() == 6);
    assert("switch-workspace"@.len() == 16);
    assert("switch-workspace"@[0] == 's');
    assert("switch-workspace"@[9] == 'r');
    assert("switch-workspace"@[13] == 'a');
    assert("switch-tab"@.len() == 10);
    assert("switch-tab"@[0] == 's');
    assert("switch-tab"@[9] == 'b');
    assert("focus-agent"@.len() == 11);
    assert("focus-agent"@[0] == 'f');
    assert("focus-agent"@[9] == 'n');
    assert("backward-char"@.len() == 13);
    assert("backward-char"@[0] == 'b');
    assert("backward-char"@[9] == 'c');
    assert("backward-kill-word"@.len() == 18);
    assert("backward-kill-word"@[0] == 'b');
    assert("backward-kill-word"@[9] == 'k');
    assert("backward-kill-word"@[13] == '-');
    assert("backward-sexp"@.len() == 13);
    assert("backward-sexp"@[0] == 'b');
    assert("backward-sexp"@[9] == 's');
    assert("backward-word"@.len() == 13);
    assert("backward-word"@[0] == 'b');
    assert("backward-word"@[9] == 'w');
    assert("beginning-of-buffer"@.len() == 19);
    assert("beginning-of-buffer"@[0] == 'b');
    assert("beginning-of-buffer"@[9] == '-');
    assert("beginning-of-buffer"@[13] == 'b');
    assert("delete-backward-char"@.len() == 20);
    assert("delete-backward-char"@[0] == 'd');
    assert("delete-backward-char"@[9] == 'c');
    assert("delete-backward-char"@[13] == 'r');
    assert("delete-forward-char"@.len() == 19);
    assert("delete-forward-char"@[0] == 'd');
    assert("delete-forward-char"@[9] == 'r');
    assert("delete-forward-char"@[13] == 'd');
    assert("describe-bindings"@.len() == 17);
    assert("describe-bindings"@[0] == 'd');
    assert("describe-bindings"@[9] == 'b');
    assert("describe-bindings"@[13] == 'i');
    assert("describe-key"@.len() == 12);
    assert("describe-key"@[0] == 'd');
    assert("describe-key"@[9] == 'k');
    assert("end-of-buffer"@.len() == 13);
    assert("end-of-buffer"@[0] == 'e');
    assert("end-of-buffer"@[9] == 'f');
    assert("exchange-point-and-mark"@.len() == 23);
    assert("exchange-point-and-mark"@[0] == 'e');
    assert("exchange-point-and-mark"@[9] == 'p');
    assert("exchange-point-and-mark"@[13] == 't');
    assert("exchange-point-and-mark"@[21] == 'r');
    assert("execute-extended-command"@.len() == 24);
    assert("execute-extended-command"@[0] == 'e');
    assert("execute-extended-command"@[9] == 'x');
    assert("execute-extended-command"@[13] == 'd');
    assert("execute-extended-command"@[21] == 'a');
    assert("exit-minibuffer"@.len() == 15);
    assert("exit-minibuffer"@[0] == 'e');
    assert("exit-minibuffer"@[9] == 'b');
    assert("exit-minibuffer"@[13] == 'e');
    assert("exit-text-mode"@.len() == 14);
    assert("exit-text-mode"@[0] == 'e');
    assert("exit-text-mode"@[9] == '-');
    assert("exit-text-mode"@[13] == 'e');
    assert("feedback"@.len() == 8);
    assert("feedback"@[0] == 'f');
    assert("forward-char"@.len() == 12);
    assert("forward-char"@[0] == 'f');
    assert("forward-char"@[9] == 'h');
    assert("forward-sexp"@.len() == 12);
    assert("forward-sexp"@[0] == 'f');
    assert("forward-sexp"@[9] == 'e');
    assert("forward-word"@.len() == 12);
    assert("forward-word"@[0] == 'f');
    assert("forward-word"@[9] == 'o');
    assert("goto-line"@.len() == 9);
    assert("goto-line"@[0] == 'g');
    assert("herdr-onboarding"@.len() == 16);
    assert("herdr-onboarding"@[0] == 'h');
    assert("herdr-onboarding"@[9] == 'o');
    assert("herdr-onboarding"@[13] == 'i');
    assert("interrupt-process"@.len() == 17);
    assert("interrupt-process"@[0] == 'i');
    assert("interrupt-process"@[9] == '-');
    assert("interrupt-process"@[13] == 'c');
    assert("isearch-backward"@.len() == 16);
    assert("isearch-backward"@[0] == 'i');
    assert("isearch-backward"@[9] == 'a');
    assert("isearch-backward"@[13] == 'a');
    assert("isearch-delete-char"@.len() == 19);
    assert("isearch-delete-char"@[0] == 'i');
    assert("isearch-delete-char"@[9] == 'e');
    assert("isearch-delete-char"@[13] == 'e');
    assert("isearch-exit"@.len() == 12);
    assert("isearch-exit"@[0] == 'i');
    assert("isearch-exit"@[9] == 'x');
    assert("isearch-forward"@.len() == 15);
    assert("isearch-forward"@[0] == 'i');
    assert("isearch-forward"@[9] == 'o');
    assert("isearch-forward"@[13] == 'r');
    assert("isearch-next-history"@.len() == 20);
    assert("isearch-next-history"@[0] == 'i');
    assert("isearch-next-history"@[9] == 'e');
    assert("isearch-next-history"@[13] == 'h');
    assert("isearch-previous-history"@.len() == 24);
    assert("isearch-previous-history"@[0] == 'i');
    assert("isearch-previous-history"@[9] == 'r');
    assert("isearch-previous-history"@[13] == 'o');
    assert("isearch-previous-history"@[21] == 'o');
    assert("keyboard-quit"@.len() == 13);
    assert("keyboard-quit"@[0] == 'k');
    assert("keyboard-quit"@[9] == 'q');
    assert("kill-beginning-of-line"@.len() == 22);
    assert("kill-beginning-of-line"@[0] == 'k');
    assert("kill-beginning-of-line"@[9] == 'n');
    assert("kill-beginning-of-line"@[13] == 'g');
    assert("kill-beginning-of-line"@[21] == 'e');
    assert("kill-line"@.len() == 9);
    assert("kill-line"@[0] == 'k');
    assert("kill-region"@.len() == 11);
    assert("kill-region"@[0] == 'k');
    assert("kill-region"@[9] == 'o');
    assert("kill-ring-save"@.len() == 14);
    assert("kill-ring-save"@[0] == 'k');
    assert("kill-ring-save"@[9] == '-');
    assert("kill-ring-save"@[13] == 'e');
    assert("mark-whole-input"@.len() == 16);
    assert("mark-whole-input"@[0] == 'm');
    assert("mark-whole-input"@[9] == 'e');
    assert("mark-whole-input"@[13] == 'p');
    assert("move-tab-left"@.len() == 13);
    assert("move-tab-left"@[0] == 'm');
    assert("move-tab-left"@[9] == 'l');
    assert("move-tab-right"@.len() == 14);
    assert("move-tab-right"@[0] == 'm');
    assert("move-tab-right"@[9] == 'r');
    assert("move-tab-right"@[13] == 't');
    assert("move-beginning-of-line"@.len() == 22);
    assert("move-beginning-of-line"@[0] == 'm');
    assert("move-beginning-of-line"@[9] == 'n');
    assert("move-beginning-of-line"@[13] == 'g');
    assert("move-beginning-of-line"@[21] == 'e');
    assert("move-end-of-line"@.len() == 16);
    assert("move-end-of-line"@[0] == 'm');
    assert("move-end-of-line"@[9] == 'o');
    assert("move-end-of-line"@[13] == 'i');
    assert("next-line"@.len() == 9);
    assert("next-line"@[0] == 'n');
    assert("open-at-point"@.len() == 13);
    assert("open-at-point"@[0] == 'o');
    assert("open-at-point"@[9] == 'o');
    assert("previous-line"@.len() == 13);
    assert("previous-line"@[0] == 'p');
    assert("previous-line"@[9] == 'l');
    assert("quoted-insert"@.len() == 13);
    assert("quoted-insert"@[0] == 'q');
    assert("quoted-insert"@[9] == 's');
    assert("recenter-top-bottom"@.len() == 19);
    assert("recenter-top-bottom"@[0] == 'r');
    assert("recenter-top-bottom"@[9] == 't');
    assert("recenter-top-bottom"@[13] == 'b');
    assert("refresh-herdr"@.len() == 13);
    assert("refresh-herdr"@[0] == 'r');
    assert("refresh-herdr"@[9] == 'e');
    assert("scroll-down"@.len() == 11);
    assert("scroll-down"@[0] == 's');
    assert("scroll-down"@[9] == 'w');
    assert("scroll-up"@.len() == 9);
    assert("scroll-up"@[0] == 's');
    assert("set-mark-command"@.len() == 16);
    assert("set-mark-command"@[0] == 's');
    assert("set-mark-command"@[9] == 'c');
    assert("set-mark-command"@[13] == 'a');
    assert("text-mode"@.len() == 9);
    assert("text-mode"@[0] == 't');
    assert("universal-argument"@.len() == 18);
    assert("universal-argument"@[0] == 'u');
    assert("universal-argument"@[9] == '-');
    assert("universal-argument"@[13] == 'u');
    assert("yank"@.len() == 4);
    assert("yank-pop"@.len() == 8);
    assert("yank-pop"@[0] == 'y');
}

/// A command's name stands for the command.
pub proof fn names_stand_for_commands(command: EmacsCommand)
    requires
        command.nominal(),
    ensures
        command_called(command.command_name()) == Some(command),
{
    let name = command.command_name();
    assert(command.is_called(name));
    let found = choose|c: EmacsCommand| #[trigger] c.is_called(name);
    command_names_are_unique(found, command);
}

/// A command under its name.
struct NamedCommand {
    name: &'static str,
    command: EmacsCommand,
}

impl Ordered for NamedCommand {
    type Model = (Seq<char>, EmacsCommand);

    closed spec fn model(&self) -> (Seq<char>, EmacsCommand) {
        (self.name@, self.command)
    }

    closed spec fn model_le(a: (Seq<char>, EmacsCommand), b: (Seq<char>, EmacsCommand)) -> bool {
        text_le(a.0, b.0)
    }

    proof fn order_laws(
        a: (Seq<char>, EmacsCommand),
        b: (Seq<char>, EmacsCommand),
        c: (Seq<char>, EmacsCommand),
    ) {
        text_order_is_total(a.0, b.0, c.0);
    }

    fn at_most(&self, other: &Self) -> (r: bool) {
        text_at_most(self.name, other.name)
    }
}

/// Every command with its name: the builtins and then the navigate actions.
pub open spec fn named_commands() -> Seq<(Seq<char>, EmacsCommand)> {
    Seq::new(
        builtin_order().len(),
        |i: int| (builtin_name(builtin_order()[i]), EmacsCommand::Builtin(builtin_order()[i])),
    ) + Seq::new(
        action_order().len(),
        |i: int| (action_name(action_order()[i]), EmacsCommand::Herdr(action_order()[i])),
    )
}

pub open spec fn entry_models(r: Seq<(&'static str, EmacsCommand)>) -> Seq<
    (Seq<char>, EmacsCommand),
> {
    Seq::new(r.len(), |i: int| (r[i].0@, r[i].1))
}

/// The builtin at `i` has a name before that of the next.
#[verifier::opaque]
spec fn follows(i: int) -> bool {
    text_before(builtin_name(builtin_order()[i]), builtin_name(builtin_order()[i + 1]))
}

proof fn lemma_follows_0()
    ensures
        follows(0),
        follows(1),
        follows(2),
        follows(3),
        follows(4),
        follows(5),
        follows(6),
        follows(7),
        follows(8),
        follows(9),
{
    reveal(follows);
    reveal_strlit("backward-char");
    reveal_strlit("backward-kill-word");
    reveal_strlit("backward-sexp");
    reveal_strlit("backward-word");
    reveal_strlit("beginning-of-buffer");
    reveal_strlit("delete-backward-char");
    reveal_strlit("delete-forward-char");
    reveal_strlit("describe-bindings");
    reveal_strlit("describe-key");
    reveal_strlit("end-of-buffer");
    reveal_strlit("exchange-point-and-mark");
    lemma_before_at("backward-char"@, "backward-kill-word"@, 9);
    lemma_before_at("backward-kill-word"@, "backward-sexp"@, 9);
    lemma_before_at("backward-sexp"@, "backward-word"@, 9);
    lemma_before_at("backward-word"@, "beginning-of-buffer"@, 1);
    lemma_before_at("beginning-of-buffer"@, "delete-backward-char"@, 0);
    lemma_before_at("delete-backward-char"@, "delete-forward-char"@, 7);
    lemma_before_at("delete-forward-char"@, "describe-bindings"@, 2);
    lemma_before_at("describe-bindings"@, "describe-key"@, 9);
    lemma_before_at("describe-key"@, "end-of-buffer"@, 0);
    lemma_before_at("end-of-buffer"@, "exchange-point-and-mark"@, 1);
}

proof fn lemma_follows_10()
    ensures
        follows(10),
        follows(11),
        follows(12),
        follows(13),
        follows(14),
        follows(15),
        follows(16),
        follows(17),
        follows(18),
        follows(19),
{
    reveal(follows);
    reveal_strlit("exchange-point-and-mark");
    reveal_strlit("execute-extended-command");
    reveal_strlit("exit-minibuffer");
    reveal_strlit("exit-text-mode");
    reveal_strlit("feedback");
    reveal_strlit("forward-char");
    reveal_strlit("forward-sexp");
    reveal_strlit("forward-word");
    reveal_strlit("goto-line");
    reveal_strlit("herdr-onboarding");
    reveal_strlit("interrupt-process");
    lemma_before_at("exchange-point-and-mark"@, "execute-extended-command"@, 2);
    lemma_before_at("execute-extended-command"@, "exit-minibuffer"@, 2);
    lemma_before_at("exit-minibuffer"@, "exit-text-mode"@, 5);
    lemma_before_at("exit-text-mode"@, "feedback"@, 0);
    lemma_before_at("feedback"@, "forward-char"@, 1);
    lemma_before_at("forward-char"@, "forward-sexp"@, 8);
    lemma_before_at("forward-sexp"@, "forward-word"@, 8);
    lemma_before_at("forward-word"@, "goto-line"@, 0);
    lemma_before_at("goto-line"@, "herdr-onboarding"@, 0);
    lemma_before_at("herdr-onboarding"@, "interrupt-process"@, 0);
}

proof fn lemma_follows_20()
    ensures
        follows(20),
        follows(21),
        follows(22),
        follows(23),
        follows(24),
        follows(25),
        follows(26),
        follows(27),
        follows(28),
        follows(29),
{
    reveal(follows);
    reveal_strlit("interrupt-process");
    reveal_strlit("isearch-backward");
    reveal_strlit("isearch-delete-char");
    reveal_strlit("isearch-exit");
    reveal_strlit("isearch-forward");
    reveal_strlit("isearch-next-history");
    reveal_strlit("isearch-previous-history");
    reveal_strlit("keyboard-quit");
    reveal_strlit("kill-beginning-of-line");
    reveal_strlit("kill-line");
    reveal_strlit("kill-region");
    lemma_before_at("interrupt-process"@, "isearch-backward"@, 1);
    lemma_before_at("isearch-backward"@, "isearch-delete-char"@, 8);
    lemma_before_at("isearch-delete-char"@, "isearch-exit"@, 8);
    lemma_before_at("isearch-exit"@, "isearch-forward"@, 8);
    lemma_before_at("isearch-forward"@, "isearch-next-history"@, 8);
    lemma_before_at("isearch-next-history"@, "isearch-previous-history"@, 8);
    lemma_before_at("isearch-previous-history"@, "keyboard-quit"@, 0);
    lemma_before_at("keyboard-quit"@, "kill-beginning-of-line"@, 1);
    lemma_before_at("kill-beginning-of-line"@, "kill-line"@, 5);
    lemma_before_at("kill-line"@, "kill-region"@, 5);
}

proof fn lemma_follows_30()
    ensures
        follows(30),
        follows(31),
        follows(32),
        follows(33),
        follows(34),
        follows(35),
        follows(36),
        follows(37),
        follows(38),
        follows(39),
{
    reveal(follows);
    reveal_strlit("kill-region");
    reveal_strlit("kill-ring-save");
    reveal_strlit("mark-whole-input");
    reveal_strlit("move-beginning-of-line");
    reveal_strlit("move-end-of-line");
    reveal_strlit("move-tab-left");
    reveal_strlit("move-tab-right");
    reveal_strlit("next-line");
    reveal_strlit("open-at-point");
    reveal_strlit("previous-line");
    reveal_strlit("quoted-insert");
    lemma_before_at("kill-region"@, "kill-ring-save"@, 6);
    lemma_before_at("kill-ring-save"@, "mark-whole-input"@, 0);
    lemma_before_at("mark-whole-input"@, "move-beginning-of-line"@, 1);
    lemma_before_at("move-beginning-of-line"@, "move-end-of-line"@, 5);
    lemma_before_at("move-end-of-line"@, "move-tab-left"@, 5);
    lemma_before_at("move-tab-left"@, "move-tab-right"@, 9);
    lemma_before_at("move-tab-right"@, "next-line"@, 0);
    lemma_before_at("next-line"@, "open-at-point"@, 0);
    lemma_before_at("open-at-point"@, "previous-line"@, 0);
    lemma_before_at("previous-line"@, "quoted-insert"@, 0);
}

proof fn lemma_follows_40()
    ensures
        follows(40),
        follows(41),
        follows(42),
        follows(43),
        follows(44),
        follows(45),
        follows(46),
        follows(47),
        follows(48),
{
    reveal(follows);
    reveal_strlit("quoted-insert");
    reveal_strlit("recenter-top-bottom");
    reveal_strlit("refresh-herdr");
    reveal_strlit("scroll-down");
    reveal_strlit("scroll-up");
    reveal_strlit("set-mark-command");
    reveal_strlit("text-mode");
    reveal_strlit("universal-argument");
    reveal_strlit("yank");
    reveal_strlit("yank-pop");
    lemma_before_at("quoted-insert"@, "recenter-top-bottom"@, 0);
    lemma_before_at("recenter-top-bottom"@, "refresh-herdr"@, 2);
    lemma_before_at("refresh-herdr"@, "scroll-down"@, 0);
    lemma_before_at("scroll-down"@, "scroll-up"@, 7);
    lemma_before_at("scroll-up"@, "set-mark-command"@, 1);
    lemma_before_at("set-mark-command"@, "text-mode"@, 0);
    lemma_before_at("text-mode"@, "universal-argument"@, 0);
    lemma_before_at("universal-argument"@, "yank"@, 0);
    lemma_before_at("yank"@, "yank-pop"@, 4);
}

proof fn lemma_follows(i: int)
    requires
        0 <= i < builtin_order().len() - 1,
    ensures
        follows(i),
{
    lemma_follows_0();
    lemma_follows_10();
    lemma_follows_20();
    lemma_follows_30();
    lemma_follows_40();
}

/// The builtins stand in the order of their names, no two under one name.
pub proof fn builtins_are_sorted(i: int, j: int)
    requires
        0 <= i < j < builtin_order().len(),
    ensures
        text_before(builtin_name(builtin_order()[i]), builtin_name(builtin_order()[j])),
    decreases j - i,
{
    lemma_follows(j - 1);
    reveal(follows);
    if i < j - 1 {
        builtins_are_sorted(i, j - 1);
        let first = builtin_name(builtin_order()[i]);
        let middle = builtin_name(builtin_order()[j - 1]);
        let last = builtin_name(builtin_order()[j]);
        text_order_is_total(first, middle, last);
        text_order_is_total(first, last, middle);
    }
}

/// Where a builtin stands.
spec fn builtin_place(builtin: EmacsBuiltin) -> int {
    match builtin {
        EmacsBuiltin::BackwardChar => 0,
        EmacsBuiltin::BackwardKillWord => 1,
        EmacsBuiltin::BackwardSexp => 2,
        EmacsBuiltin::BackwardWord => 3,
        EmacsBuiltin::BeginningOfBuffer => 4,
        EmacsBuiltin::DeleteBackwardChar => 5,
        EmacsBuiltin::DeleteForwardChar => 6,
        EmacsBuiltin::DescribeBindings => 7,
        EmacsBuiltin::DescribeKey => 8,
        EmacsBuiltin::EndOfBuffer => 9,
        EmacsBuiltin::ExchangePointAndMark => 10,
        EmacsBuiltin::ExecuteExtendedCommand => 11,
        EmacsBuiltin::ExitMinibuffer => 12,
        EmacsBuiltin::ExitTextMode => 13,
        EmacsBuiltin::Feedback => 14,
        EmacsBuiltin::ForwardChar => 15,
        EmacsBuiltin::ForwardSexp => 16,
        EmacsBuiltin::ForwardWord => 17,
        EmacsBuiltin::GotoLine => 18,
        EmacsBuiltin::HerdrOnboarding => 19,
        EmacsBuiltin::InterruptProcess => 20,
        EmacsBuiltin::IsearchBackward => 21,
        EmacsBuiltin::IsearchDeleteChar => 22,
        EmacsBuiltin::IsearchExit => 23,
        EmacsBuiltin::IsearchForward => 24,
        EmacsBuiltin::IsearchNextHistory => 25,
        EmacsBuiltin::IsearchPreviousHistory => 26,
        EmacsBuiltin::KeyboardQuit => 27,
        EmacsBuiltin::KillBeginningOfLine => 28,
        EmacsBuiltin::KillLine => 29,
        EmacsBuiltin::KillRegion => 30,
        EmacsBuiltin::KillRingSave => 31,
        EmacsBuiltin::MarkWholeInput => 32,
        EmacsBuiltin::MoveBeginningOfLine => 33,
        EmacsBuiltin::MoveEndOfLine => 34,
        EmacsBuiltin::MoveTabLeft => 35,
        EmacsBuiltin::MoveTabRight => 36,
        EmacsBuiltin::NextLine => 37,
        EmacsBuiltin::OpenAtPoint => 38,
        EmacsBuiltin::PreviousLine => 39,
        EmacsBuiltin::QuotedInsert => 40,
        EmacsBuiltin::RecenterTopBottom => 41,
        EmacsBuiltin::RefreshHerdr => 42,
        EmacsBuiltin::ScrollDown => 43,
        EmacsBuiltin::ScrollUp => 44,
        EmacsBuiltin::SetMark => 45,
        EmacsBuiltin::TextMode => 46,
        EmacsBuiltin::UniversalArgument => 47,
        EmacsBuiltin::Yank => 48,
        EmacsBuiltin::YankPop => 49,
    }
}

/// Where a navigate action stands.
spec fn action_place(action: NavigateAction) -> int {
    match action {
        NavigateAction::SplitVertical => 0,
        NavigateAction::SplitHorizontal => 1,
        NavigateAction::ClosePane => 2,
        NavigateAction::Zoom => 3,
        NavigateAction::CyclePaneNext => 4,
        NavigateAction::CyclePanePrevious => 5,
        NavigateAction::OpenNavigator => 6,
        NavigateAction::FocusPaneLeft => 7,
        NavigateAction::FocusPaneDown => 8,
        NavigateAction::FocusPaneUp => 9,
        NavigateAction::FocusPaneRight => 10,
        NavigateAction::SwapPaneLeft => 11,
        NavigateAction::SwapPaneDown => 12,
        NavigateAction::SwapPaneUp => 13,
        NavigateAction::SwapPaneRight => 14,
        NavigateAction::CloseTab => 15,
        NavigateAction::NewWorkspace => 16,
        NavigateAction::NewWorktree => 17,
        NavigateAction::OpenWorktree => 18,
        NavigateAction::RemoveWorktree => 19,
        NavigateAction::RenameWorkspace => 20,
        NavigateAction::CloseWorkspace => 21,
        NavigateAction::WorkspacePicker => 22,
        NavigateAction::PreviousWorkspace => 23,
        NavigateAction::NextWorkspace => 24,
        NavigateAction::PreviousAgent => 25,
        NavigateAction::NextAgent => 26,
        NavigateAction::NewTab => 27,
        NavigateAction::RenameTab => 28,
        NavigateAction::PreviousTab => 29,
        NavigateAction::NextTab => 30,
        NavigateAction::RenamePane => 31,
        NavigateAction::EditScrollback => 32,
        NavigateAction::CopyMode => 33,
        NavigateAction::EnterResizeMode => 34,
        NavigateAction::ToggleSidebar => 35,
        NavigateAction::LastPane => 36,
        NavigateAction::Help => 37,
        NavigateAction::Settings => 38,
        NavigateAction::ReloadConfig => 39,
        NavigateAction::ResetFederationConnections => 40,
        NavigateAction::OpenNotificationTarget => 41,
        NavigateAction::Detach => 42,
        NavigateAction::SwitchWorkspace(_) => 43,
        NavigateAction::SwitchTab(_) => 44,
        NavigateAction::FocusAgent(_) => 45,
    }
}

proof fn lemma_every_command_is_listed(command: EmacsCommand)
    requires
        command.nominal(),
    ensures
        match command {
            EmacsCommand::Builtin(builtin) => 0 <= builtin_place(builtin) < builtin_order().len()
                && builtin_order()[builtin_place(builtin)] == builtin,
            EmacsCommand::Herdr(action) => 0 <= action_place(action) < action_order().len()
                && action_order()[action_place(action)] == action,
        },
{
}

proof fn lemma_actions_are_distinct(i: int)
    requires
        0 <= i < action_order().len(),
    ensures
        action_place(action_order()[i]) == i,
        at_index_zero(action_order()[i]),
{
    assert(action_order()[0] == NavigateAction::SplitVertical);
    assert(action_order()[1] == NavigateAction::SplitHorizontal);
    assert(action_order()[2] == NavigateAction::ClosePane);
    assert(action_order()[3] == NavigateAction::Zoom);
    assert(action_order()[4] == NavigateAction::CyclePaneNext);
    assert(action_order()[5] == NavigateAction::CyclePanePrevious);
    assert(action_order()[6] == NavigateAction::OpenNavigator);
    assert(action_order()[7] == NavigateAction::FocusPaneLeft);
    assert(action_order()[8] == NavigateAction::FocusPaneDown);
    assert(action_order()[9] == NavigateAction::FocusPaneUp);
    assert(action_order()[10] == NavigateAction::FocusPaneRight);
    assert(action_order()[11] == NavigateAction::SwapPaneLeft);
    assert(action_order()[12] == NavigateAction::SwapPaneDown);
    assert(action_order()[13] == NavigateAction::SwapPaneUp);
    assert(action_order()[14] == NavigateAction::SwapPaneRight);
    assert(action_order()[15] == NavigateAction::CloseTab);
    assert(action_order()[16] == NavigateAction::NewWorkspace);
    assert(action_order()[17] == NavigateAction::NewWorktree);
    assert(action_order()[18] == NavigateAction::OpenWorktree);
    assert(action_order()[19] == NavigateAction::RemoveWorktree);
    assert(action_order()[20] == NavigateAction::RenameWorkspace);
    assert(action_order()[21] == NavigateAction::CloseWorkspace);
    assert(action_order()[22] == NavigateAction::WorkspacePicker);
    assert(action_order()[23] == NavigateAction::PreviousWorkspace);
    assert(action_order()[24] == NavigateAction::NextWorkspace);
    assert(action_order()[25] == NavigateAction::PreviousAgent);
    assert(action_order()[26] == NavigateAction::NextAgent);
    assert(action_order()[27] == NavigateAction::NewTab);
    assert(action_order()[28] == NavigateAction::RenameTab);
    assert(action_order()[29] == NavigateAction::PreviousTab);
    assert(action_order()[30] == NavigateAction::NextTab);
    assert(action_order()[31] == NavigateAction::RenamePane);
    assert(action_order()[32] == NavigateAction::EditScrollback);
    assert(action_order()[33] == NavigateAction::CopyMode);
    assert(action_order()[34] == NavigateAction::EnterResizeMode);
    assert(action_order()[35] == NavigateAction::ToggleSidebar);
    assert(action_order()[36] == NavigateAction::LastPane);
    assert(action_order()[37] == NavigateAction::Help);
    assert(action_order()[38] == NavigateAction::Settings);
    assert(action_order()[39] == NavigateAction::ReloadConfig);
    assert(action_order()[40] == NavigateAction::ResetFederationConnections);
    assert(action_order()[41] == NavigateAction::OpenNotificationTarget);
    assert(action_order()[42] == NavigateAction::Detach);
    assert(action_order()[43] == NavigateAction::SwitchWorkspace(0));
    assert(action_order()[44] == NavigateAction::SwitchTab(0));
    assert(action_order()[45] == NavigateAction::FocusAgent(0));
}

proof fn lemma_named_commands_are_distinct()
    ensures
        named_commands().no_duplicates(),
        forall|i: int|
            #![trigger named_commands()[i]]
            0 <= i < named_commands().len() ==> named_commands()[i].1.nominal()
                && named_commands()[i].1.command_name() == named_commands()[i].0,
{
    let n = builtin_order().len();
    assert forall|i: int| #![trigger named_commands()[i]] 0 <= i < named_commands().len() implies {
        &&& named_commands()[i].1.nominal()
        &&& named_commands()[i].1.command_name() == named_commands()[i].0
    } by {
        if i >= n {
            lemma_actions_are_distinct(i - n);
        }
    }
    assert forall|i: int, j: int|
        #![trigger named_commands()[i], named_commands()[j]]
        0 <= i < j < named_commands().len() implies named_commands()[i] != named_commands()[j] by {
        if j < n {
            builtins_are_sorted(i, j);
        } else if i >= n {
            lemma_actions_are_distinct(i - n);
            lemma_actions_are_distinct(j - n);
        }
    }
}

/// A list with the commands of `named_commands` in the order of their names: no name comes twice,
/// every command is there, and each name stands for the command behind it.
pub open spec fn lists_all_commands(list: Seq<(Seq<char>, EmacsCommand)>) -> bool {
    &&& list.len() == builtin_order().len() + action_order().len()
    &&& forall|i: int, j: int|
        #![trigger list[i], list[j]]
        0 <= i < j < list.len() ==> text_before(list[i].0, list[j].0)
    &&& forall|i: int|
        #![trigger list[i]]
        0 <= i < list.len() ==> list[i].1.command_name() == list[i].0 && command_called(list[i].0)
            == Some(list[i].1)
    &&& forall|c: EmacsCommand|
        #![trigger c.nominal()]
        c.nominal() ==> list.contains((c.command_name(), c))
}

proof fn lemma_lists_all_commands(list: Seq<(Seq<char>, EmacsCommand)>)
    requires
        list.to_multiset() == named_commands().to_multiset(),
        forall|i: int, j: int|
            #![trigger list[i], list[j]]
            0 <= i < j < list.len() ==> text_le(list[i].0, list[j].0),
    ensures
        lists_all_commands(list),
{
    broadcast use vstd::seq_lib::group_to_multiset_ensures;

    let all = named_commands();
    lemma_named_commands_are_distinct();
    assert(list.to_multiset().len() == list.len());
    assert(all.to_multiset().len() == all.len());
    assert forall|i: int|
        #![trigger list[i]]
        0 <= i < list.len() implies list[i].1.nominal() && list[i].1.command_name() == list[i].0
        && command_called(list[i].0) == Some(list[i].1) by {
        assert(list.to_multiset().contains(list[i]));
        assert(all.contains(list[i]));
        let k = choose|k: int| 0 <= k < all.len() && all[k] == list[i];
        assert(all[k].1.nominal());
        names_stand_for_commands(list[i].1);
    }
    all.lemma_multiset_has_no_duplicates();
    list.lemma_multiset_has_no_duplicates_conv();
    assert forall|i: int, j: int|
        #![trigger list[i], list[j]]
        0 <= i < j < list.len() implies text_before(list[i].0, list[j].0) by {
        if list[i].0 == list[j].0 {
            assert(command_called(list[i].0) == Some(list[i].1));
            assert(command_called(list[j].0) == Some(list[j].1));
            assert(list[i] == list[j]);
        }
    }
    assert forall|c: EmacsCommand| #![trigger c.nominal()] c.nominal() implies list.contains(
        (c.command_name(), c),
    ) by {
        lemma_every_command_is_listed(c);
        let k = match c {
            EmacsCommand::Builtin(builtin) => builtin_place(builtin),
            EmacsCommand::Herdr(action) => builtin_order().len() + action_place(action),
        };
        assert(all[k] == (c.command_name(), c));
        assert(all.to_multiset().contains(all[k]));
        assert(list.to_multiset().contains((c.command_name(), c)));
    }
}

/// Every command with its name, sorted by name.
pub fn all_commands() -> (r: Vec<(&'static str, EmacsCommand)>)
    ensures
        entry_models(r@).to_multiset() == named_commands().to_multiset(),
        lists_all_commands(entry_models(r@)),
{
    let mut unsorted: Vec<NamedCommand> = Vec::new();
    let layer = builtins();
    let mut i: usize = 0;
    while i < layer.len()
        invariant
            i <= layer@.len(),
            layer@ == builtin_order(),
            models(unsorted@) =~= named_commands().take(i as int),
        decreases layer@.len() - i,
    {
        let ghost before = models(unsorted@);
        unsorted.push(
            NamedCommand { name: layer[i].name(), command: EmacsCommand::Builtin(layer[i]) },
        );
        assert(models(unsorted@) =~= before.push(named_commands()[i as int]));
        i += 1;
    }
    let own = actions();
    let mut k: usize = 0;
    while k < own.len()
        invariant
            k <= own@.len(),
            own@ == action_order(),
            models(unsorted@) =~= named_commands().take(builtin_order().len() + k),
        decreases own@.len() - k,
    {
        let ghost before = models(unsorted@);
        unsorted.push(
            NamedCommand { name: herdr_command_name(own[k]), command: EmacsCommand::Herdr(own[k]) },
        );
        assert(models(unsorted@) =~= before.push(named_commands()[builtin_order().len() + k]));
        k += 1;
    }
    assert(models(unsorted@) =~= named_commands());
    let ordered = sort(unsorted);
    let mut out: Vec<(&'static str, EmacsCommand)> = Vec::new();
    let mut n: usize = 0;
    while n < ordered.len()
        invariant
            n <= ordered@.len(),
            out@.len() == n,
            forall|j: int|
                #![trigger out@[j]]
                0 <= j < n ==> (out@[j].0@, out@[j].1) == models(ordered@)[j],
        decreases ordered@.len() - n,
    {
        out.push((ordered[n].name, ordered[n].command));
        n += 1;
    }
    assert(entry_models(out@) =~= models(ordered@));
    proof {
        let list = entry_models(out@);
        assert forall|i: int, j: int|
            #![trigger list[i], list[j]]
            0 <= i < j < list.len() implies text_le(list[i].0, list[j].0) by {
            assert(NamedCommand::model_le(models(ordered@)[i], models(ordered@)[j]));
        }
        lemma_lists_all_commands(list);
    }
    out
}

/// Which keymaps are active.
#[derive(Debug, Clone, Copy, PartialEq, Eq, Structural)]
pub enum MapContext {
    /// A pane is focused and owns every key that no map takes.
    Live,
    /// Text mode: the pane is a read-only buffer.
    Text,
    /// A minibuffer prompt is open.
    Minibuffer,
    /// Incremental search reads a query.
    Isearch,
}

/// One map of the active stack, with its display name.
#[derive(Debug, Clone, Copy)]
pub struct ActiveMap<'a> {
    pub name: &'static str,
    pub map: &'a Keymap<EmacsCommand>,
}

/// Bindings of commands.
pub type Bindings = Seq<(Seq<Chord>, EmacsCommand)>;

/// What the four keymaps hold.
#[verifier::ext_equal]
pub struct Maps {
    pub global: Bindings,
    pub text: Bindings,
    pub minibuffer: Bindings,
    pub isearch: Bindings,
}

impl Maps {
    /// The active stack, highest priority first: the global map is always last, and the minibuffer
    /// does not inherit the text map.
    pub open spec fn stack(self, ctx: MapContext) -> Seq<Bindings> {
        match ctx {
            MapContext::Live => seq![self.global],
            MapContext::Text => seq![self.text, self.global],
            MapContext::Minibuffer => seq![self.minibuffer, self.global],
            MapContext::Isearch => seq![self.isearch, self.global],
        }
    }

    /// The maps after `seq` was bound to `command` where overrides for it go.
    pub open spec fn overridden(self, seq: Seq<Chord>, command: EmacsCommand) -> Maps {
        match command.slot() {
            MapSlot::Global => Maps { global: rebound(self.global, 0, seq, command), ..self },
            MapSlot::Text => Maps { text: rebound(self.text, 0, seq, command), ..self },
            MapSlot::Minibuffer => Maps {
                minibuffer: rebound(self.minibuffer, 0, seq, command),
                ..self
            },
            MapSlot::Isearch => Maps { isearch: rebound(self.isearch, 0, seq, command), ..self },
            MapSlot::Both => Maps {
                global: rebound(self.global, 0, seq, command),
                text: rebound(self.text, 0, seq, command),
                ..self
            },
        }
    }
}

/// The keymaps of the layer.
#[derive(Debug, PartialEq, Eq)]
pub struct KeymapSet {
    /// Always active, below every other map.
    pub global: Keymap<EmacsCommand>,
    /// Active in text mode.
    pub text: Keymap<EmacsCommand>,
    /// Active while a minibuffer prompt is open.
    pub minibuffer: Keymap<EmacsCommand>,
    /// Active while incremental search reads a query.
    pub isearch: Keymap<EmacsCommand>,
}

impl Default for KeymapSet {
    fn default() -> (r: Self)
        ensures
            r.maps() == (Maps {
                global: Seq::empty(),
                text: Seq::empty(),
                minibuffer: Seq::empty(),
                isearch: Seq::empty(),
            }),
    {
        KeymapSet {
            global: Keymap::default(),
            text: Keymap::default(),
            minibuffer: Keymap::default(),
            isearch: Keymap::default(),
        }
    }
}

/// The display name of the map that a context puts on top.
pub open spec fn context_name(ctx: MapContext) -> Seq<char> {
    match ctx {
        MapContext::Live => "global"@,
        MapContext::Text => "text"@,
        MapContext::Minibuffer => "minibuffer"@,
        MapContext::Isearch => "isearch"@,
    }
}

pub open spec fn active_entries(r: Seq<ActiveMap<'_>>) -> Seq<Bindings> {
    Seq::new(r.len(), |i: int| r[i].map.entries())
}

impl KeymapSet {
    pub open spec fn maps(&self) -> Maps {
        Maps {
            global: self.global.entries(),
            text: self.text.entries(),
            minibuffer: self.minibuffer.entries(),
            isearch: self.isearch.entries(),
        }
    }

    /// The active maps, highest priority first.
    pub fn active_maps(&self, ctx: MapContext) -> (r: Vec<ActiveMap<'_>>)
        ensures
            active_entries(r@) == self.maps().stack(ctx),
            r@[0].name@ == context_name(ctx),
            r@.last().name@ == "global"@,
    {
        let global = ActiveMap { name: "global", map: &self.global };
        let r = match ctx {
            MapContext::Live => vec![global],
            MapContext::Text => vec![ActiveMap { name: "text", map: &self.text }, global],
            MapContext::Minibuffer => vec![
                ActiveMap { name: "minibuffer", map: &self.minibuffer },
                global,
            ],
            MapContext::Isearch => vec![ActiveMap { name: "isearch", map: &self.isearch }, global],
        };
        assert(active_entries(r@) =~= self.maps().stack(ctx));
        r
    }

    /// What the active stack says of `seq`.
    pub fn lookup(&self, ctx: MapContext, seq: &[Chord]) -> (r: Lookup<EmacsCommand>)
        ensures
            r == stack_looked_up(self.maps().stack(ctx), seq@),
    {
        let maps: Vec<&Keymap<EmacsCommand>> = match ctx {
            MapContext::Live => vec![&self.global],
            MapContext::Text => vec![&self.text, &self.global],
            MapContext::Minibuffer => vec![&self.minibuffer, &self.global],
            MapContext::Isearch => vec![&self.isearch, &self.global],
        };
        assert(stack_entries(maps@) =~= self.maps().stack(ctx));
        stack_lookup(maps.as_slice(), seq)
    }
}

/// A command bound in every context: outside the context's own map, the global map decides.
pub proof fn global_bindings_fall_through(maps: Maps, ctx: MapContext, seq: Seq<Chord>)
    requires
        looked_up(maps.stack(ctx)[0], seq) is Unbound,
    ensures
        stack_looked_up(maps.stack(ctx), seq) == looked_up(maps.global, seq),
{
    let stack = maps.stack(ctx);
    reveal_with_fuel(crate::emacs::keymap::stack_bound, 3);
    if looked_up(maps.global, seq) is Prefix {
        assert(crate::emacs::keymap::begins_binding(stack[stack.len() - 1], seq));
    }
}

pub open spec fn spec_plain(code: KeyCode) -> Chord {
    Chord { ctrl: false, meta: false, code }
}

#[verifier::when_used_as_spec(spec_plain)]
fn plain(code: KeyCode) -> (r: Chord)
    ensures
        r == spec_plain(code),
{
    Chord { ctrl: false, meta: false, code }
}

pub open spec fn spec_control(code: KeyCode) -> Chord {
    Chord { ctrl: true, meta: false, code }
}

#[verifier::when_used_as_spec(spec_control)]
fn control(code: KeyCode) -> (r: Chord)
    ensures
        r == spec_control(code),
{
    Chord { ctrl: true, meta: false, code }
}

pub open spec fn spec_meta(code: KeyCode) -> Chord {
    Chord { ctrl: false, meta: true, code }
}

#[verifier::when_used_as_spec(spec_meta)]
fn meta(code: KeyCode) -> (r: Chord)
    ensures
        r == spec_meta(code),
{
    Chord { ctrl: false, meta: true, code }
}

pub open spec fn spec_control_meta(code: KeyCode) -> Chord {
    Chord { ctrl: true, meta: true, code }
}

#[verifier::when_used_as_spec(spec_control_meta)]
fn control_meta(code: KeyCode) -> (r: Chord)
    ensures
        r == spec_control_meta(code),
{
    Chord { ctrl: true, meta: true, code }
}

fn one(a: Chord) -> (r: Vec<Chord>)
    ensures
        r@ == seq![a],
{
    vec![a]
}

fn two(a: Chord, b: Chord) -> (r: Vec<Chord>)
    ensures
        r@ == seq![a, b],
{
    vec![a, b]
}

pub open spec fn table_view(table: Seq<(Vec<Chord>, EmacsCommand)>) -> Bindings {
    Seq::new(table.len(), |i: int| (table[i].0@, table[i].1))
}

/// The default bindings of the global map.
pub open spec fn default_global() -> Bindings {
    seq![
        (seq![spec_control(KeyCode::Char('x')), spec_plain(KeyCode::Char('2'))], EmacsCommand::Herdr(NavigateAction::SplitHorizontal)),
        (seq![spec_control(KeyCode::Char('x')), spec_plain(KeyCode::Char('3'))], EmacsCommand::Herdr(NavigateAction::SplitVertical)),
        (seq![spec_control(KeyCode::Char('x')), spec_plain(KeyCode::Char('o'))], EmacsCommand::Herdr(NavigateAction::CyclePaneNext)),
        (seq![spec_control(KeyCode::Char('x')), spec_plain(KeyCode::Char('0'))], EmacsCommand::Herdr(NavigateAction::ClosePane)),
        (seq![spec_control(KeyCode::Char('x')), spec_plain(KeyCode::Char('1'))], EmacsCommand::Herdr(NavigateAction::Zoom)),
        (seq![spec_control(KeyCode::Char('x')), spec_plain(KeyCode::Char('b'))], EmacsCommand::Herdr(NavigateAction::OpenNavigator)),
        (seq![spec_control(KeyCode::Char('x')), spec_control(KeyCode::Char('f'))], EmacsCommand::Herdr(NavigateAction::NewWorkspace)),
        (seq![spec_control(KeyCode::Char('x')), spec_plain(KeyCode::Char('c'))], EmacsCommand::Herdr(NavigateAction::NewTab)),
        (seq![spec_control(KeyCode::Char('x')), spec_plain(KeyCode::Char('n'))], EmacsCommand::Herdr(NavigateAction::NextTab)),
        (seq![spec_control(KeyCode::Char('x')), spec_plain(KeyCode::Char('p'))], EmacsCommand::Herdr(NavigateAction::PreviousTab)),
        (seq![spec_control(KeyCode::Char('x')), spec_plain(KeyCode::Char('k'))], EmacsCommand::Herdr(NavigateAction::CloseTab)),
        (seq![spec_control(KeyCode::Char('x')), spec_plain(KeyCode::Char('t'))], EmacsCommand::Herdr(NavigateAction::RenameTab)),
        (seq![spec_control(KeyCode::Char('c')), spec_plain(KeyCode::Char('t'))], EmacsCommand::Herdr(NavigateAction::RenameTab)),
        (seq![spec_control(KeyCode::Char('c')), spec_plain(KeyCode::Char('w'))], EmacsCommand::Herdr(NavigateAction::RenameWorkspace)),
        (seq![spec_meta(KeyCode::Char('n'))], EmacsCommand::Herdr(NavigateAction::NextAgent)),
        (seq![spec_meta(KeyCode::Char('p'))], EmacsCommand::Herdr(NavigateAction::PreviousAgent)),
        (seq![spec_control_meta(KeyCode::Char('n'))], EmacsCommand::Herdr(NavigateAction::NextWorkspace)),
        (seq![spec_control_meta(KeyCode::Char('o'))], EmacsCommand::Builtin(EmacsBuiltin::OpenAtPoint)),
        (seq![spec_control_meta(KeyCode::Char('p'))], EmacsCommand::Herdr(NavigateAction::PreviousWorkspace)),
        (seq![spec_control(KeyCode::Char('x')), spec_plain(KeyCode::Char('w'))], EmacsCommand::Herdr(NavigateAction::WorkspacePicker)),
        (seq![spec_control(KeyCode::Char('['))], EmacsCommand::Herdr(NavigateAction::PreviousTab)),
        (seq![spec_control(KeyCode::Char(']'))], EmacsCommand::Herdr(NavigateAction::NextTab)),
        (seq![spec_meta(KeyCode::Char('['))], EmacsCommand::Builtin(EmacsBuiltin::MoveTabLeft)),
        (seq![spec_meta(KeyCode::Char(']'))], EmacsCommand::Builtin(EmacsBuiltin::MoveTabRight)),
        (seq![spec_control(KeyCode::Char('x')), spec_plain(KeyCode::Char('['))], EmacsCommand::Builtin(EmacsBuiltin::TextMode)),
        (seq![spec_control(KeyCode::Char('c')), spec_control(KeyCode::Char('c'))], EmacsCommand::Builtin(EmacsBuiltin::InterruptProcess)),
        (seq![spec_control(KeyCode::Char('q'))], EmacsCommand::Builtin(EmacsBuiltin::QuotedInsert)),
        (seq![spec_control(KeyCode::Char('g'))], EmacsCommand::Builtin(EmacsBuiltin::KeyboardQuit)),
        (seq![spec_control(KeyCode::Char('x')), spec_plain(KeyCode::Char('?'))], EmacsCommand::Builtin(EmacsBuiltin::DescribeBindings)),
        (seq![spec_meta(KeyCode::Char('x'))], EmacsCommand::Builtin(EmacsBuiltin::ExecuteExtendedCommand)),
        (seq![spec_control(KeyCode::Char('y'))], EmacsCommand::Builtin(EmacsBuiltin::Yank)),
        (seq![spec_meta(KeyCode::Char('y'))], EmacsCommand::Builtin(EmacsBuiltin::YankPop)),
        (seq![spec_control(KeyCode::Char('s'))], EmacsCommand::Builtin(EmacsBuiltin::IsearchForward)),
        (seq![spec_control(KeyCode::Char('r'))], EmacsCommand::Builtin(EmacsBuiltin::IsearchBackward)),
    ]
}

fn default_global_table() -> (r: Vec<(Vec<Chord>, EmacsCommand)>)
    ensures
        table_view(r@) == default_global(),
{
    let r = vec![
        (two(control(KeyCode::Char('x')), plain(KeyCode::Char('2'))), EmacsCommand::Herdr(NavigateAction::SplitHorizontal)),
        (two(control(KeyCode::Char('x')), plain(KeyCode::Char('3'))), EmacsCommand::Herdr(NavigateAction::SplitVertical)),
        (two(control(KeyCode::Char('x')), plain(KeyCode::Char('o'))), EmacsCommand::Herdr(NavigateAction::CyclePaneNext)),
        (two(control(KeyCode::Char('x')), plain(KeyCode::Char('0'))), EmacsCommand::Herdr(NavigateAction::ClosePane)),
        (two(control(KeyCode::Char('x')), plain(KeyCode::Char('1'))), EmacsCommand::Herdr(NavigateAction::Zoom)),
        (two(control(KeyCode::Char('x')), plain(KeyCode::Char('b'))), EmacsCommand::Herdr(NavigateAction::OpenNavigator)),
        (two(control(KeyCode::Char('x')), control(KeyCode::Char('f'))), EmacsCommand::Herdr(NavigateAction::NewWorkspace)),
        (two(control(KeyCode::Char('x')), plain(KeyCode::Char('c'))), EmacsCommand::Herdr(NavigateAction::NewTab)),
        (two(control(KeyCode::Char('x')), plain(KeyCode::Char('n'))), EmacsCommand::Herdr(NavigateAction::NextTab)),
        (two(control(KeyCode::Char('x')), plain(KeyCode::Char('p'))), EmacsCommand::Herdr(NavigateAction::PreviousTab)),
        (two(control(KeyCode::Char('x')), plain(KeyCode::Char('k'))), EmacsCommand::Herdr(NavigateAction::CloseTab)),
        (two(control(KeyCode::Char('x')), plain(KeyCode::Char('t'))), EmacsCommand::Herdr(NavigateAction::RenameTab)),
        (two(control(KeyCode::Char('c')), plain(KeyCode::Char('t'))), EmacsCommand::Herdr(NavigateAction::RenameTab)),
        (two(control(KeyCode::Char('c')), plain(KeyCode::Char('w'))), EmacsCommand::Herdr(NavigateAction::RenameWorkspace)),
        (one(meta(KeyCode::Char('n'))), EmacsCommand::Herdr(NavigateAction::NextAgent)),
        (one(meta(KeyCode::Char('p'))), EmacsCommand::Herdr(NavigateAction::PreviousAgent)),
        (one(control_meta(KeyCode::Char('n'))), EmacsCommand::Herdr(NavigateAction::NextWorkspace)),
        (one(control_meta(KeyCode::Char('o'))), EmacsCommand::Builtin(EmacsBuiltin::OpenAtPoint)),
        (one(control_meta(KeyCode::Char('p'))), EmacsCommand::Herdr(NavigateAction::PreviousWorkspace)),
        (two(control(KeyCode::Char('x')), plain(KeyCode::Char('w'))), EmacsCommand::Herdr(NavigateAction::WorkspacePicker)),
        (one(control(KeyCode::Char('['))), EmacsCommand::Herdr(NavigateAction::PreviousTab)),
        (one(control(KeyCode::Char(']'))), EmacsCommand::Herdr(NavigateAction::NextTab)),
        (one(meta(KeyCode::Char('['))), EmacsCommand::Builtin(EmacsBuiltin::MoveTabLeft)),
        (one(meta(KeyCode::Char(']'))), EmacsCommand::Builtin(EmacsBuiltin::MoveTabRight)),
        (two(control(KeyCode::Char('x')), plain(KeyCode::Char('['))), EmacsCommand::Builtin(EmacsBuiltin::TextMode)),
        (two(control(KeyCode::Char('c')), control(KeyCode::Char('c'))), EmacsCommand::Builtin(EmacsBuiltin::InterruptProcess)),
        (one(control(KeyCode::Char('q'))), EmacsCommand::Builtin(EmacsBuiltin::QuotedInsert)),
        (one(control(KeyCode::Char('g'))), EmacsCommand::Builtin(EmacsBuiltin::KeyboardQuit)),
        (two(control(KeyCode::Char('x')), plain(KeyCode::Char('?'))), EmacsCommand::Builtin(EmacsBuiltin::DescribeBindings)),
        (one(meta(KeyCode::Char('x'))), EmacsCommand::Builtin(EmacsBuiltin::ExecuteExtendedCommand)),
        (one(control(KeyCode::Char('y'))), EmacsCommand::Builtin(EmacsBuiltin::Yank)),
        (one(meta(KeyCode::Char('y'))), EmacsCommand::Builtin(EmacsBuiltin::YankPop)),
        (one(control(KeyCode::Char('s'))), EmacsCommand::Builtin(EmacsBuiltin::IsearchForward)),
        (one(control(KeyCode::Char('r'))), EmacsCommand::Builtin(EmacsBuiltin::IsearchBackward)),
    ];
    assert(table_view(r@) =~= default_global());
    r
}

/// The default bindings of the text map.
pub open spec fn default_text() -> Bindings {
    seq![
        (seq![spec_control(KeyCode::Char('f'))], EmacsCommand::Builtin(EmacsBuiltin::ForwardChar)),
        (seq![spec_control(KeyCode::Char('b'))], EmacsCommand::Builtin(EmacsBuiltin::BackwardChar)),
        (seq![spec_control(KeyCode::Char('n'))], EmacsCommand::Builtin(EmacsBuiltin::NextLine)),
        (seq![spec_control(KeyCode::Char('p'))], EmacsCommand::Builtin(EmacsBuiltin::PreviousLine)),
        (seq![spec_meta(KeyCode::Char('f'))], EmacsCommand::Builtin(EmacsBuiltin::ForwardWord)),
        (seq![spec_meta(KeyCode::Char('b'))], EmacsCommand::Builtin(EmacsBuiltin::BackwardWord)),
        (seq![spec_control_meta(KeyCode::Char('f'))], EmacsCommand::Builtin(EmacsBuiltin::ForwardSexp)),
        (seq![spec_control_meta(KeyCode::Char('b'))], EmacsCommand::Builtin(EmacsBuiltin::BackwardSexp)),
        (seq![spec_control(KeyCode::Char('a'))], EmacsCommand::Builtin(EmacsBuiltin::MoveBeginningOfLine)),
        (seq![spec_control(KeyCode::Char('e'))], EmacsCommand::Builtin(EmacsBuiltin::MoveEndOfLine)),
        (seq![spec_control(KeyCode::Char('l'))], EmacsCommand::Builtin(EmacsBuiltin::RecenterTopBottom)),
        (seq![spec_control(KeyCode::Char('v'))], EmacsCommand::Builtin(EmacsBuiltin::ScrollUp)),
        (seq![spec_meta(KeyCode::Char('v'))], EmacsCommand::Builtin(EmacsBuiltin::ScrollDown)),
        (seq![spec_meta(KeyCode::Char('<'))], EmacsCommand::Builtin(EmacsBuiltin::BeginningOfBuffer)),
        (seq![spec_meta(KeyCode::Char('>'))], EmacsCommand::Builtin(EmacsBuiltin::EndOfBuffer)),
        (seq![spec_meta(KeyCode::Char('g')), spec_plain(KeyCode::Char('g'))], EmacsCommand::Builtin(EmacsBuiltin::GotoLine)),
        (seq![spec_control(KeyCode::Char(' '))], EmacsCommand::Builtin(EmacsBuiltin::SetMark)),
        (seq![spec_control(KeyCode::Char('x')), spec_control(KeyCode::Char('x'))], EmacsCommand::Builtin(EmacsBuiltin::ExchangePointAndMark)),
        (seq![spec_meta(KeyCode::Char('w'))], EmacsCommand::Builtin(EmacsBuiltin::KillRingSave)),
        (seq![spec_control(KeyCode::Char('w'))], EmacsCommand::Builtin(EmacsBuiltin::KillRegion)),
        (seq![spec_control(KeyCode::Char('y'))], EmacsCommand::Builtin(EmacsBuiltin::Yank)),
        (seq![spec_meta(KeyCode::Char('y'))], EmacsCommand::Builtin(EmacsBuiltin::YankPop)),
        (seq![spec_plain(KeyCode::Char('q'))], EmacsCommand::Builtin(EmacsBuiltin::ExitTextMode)),
        (seq![spec_plain(KeyCode::Esc)], EmacsCommand::Builtin(EmacsBuiltin::ExitTextMode)),
    ]
}

fn default_text_table() -> (r: Vec<(Vec<Chord>, EmacsCommand)>)
    ensures
        table_view(r@) == default_text(),
{
    let r = vec![
        (one(control(KeyCode::Char('f'))), EmacsCommand::Builtin(EmacsBuiltin::ForwardChar)),
        (one(control(KeyCode::Char('b'))), EmacsCommand::Builtin(EmacsBuiltin::BackwardChar)),
        (one(control(KeyCode::Char('n'))), EmacsCommand::Builtin(EmacsBuiltin::NextLine)),
        (one(control(KeyCode::Char('p'))), EmacsCommand::Builtin(EmacsBuiltin::PreviousLine)),
        (one(meta(KeyCode::Char('f'))), EmacsCommand::Builtin(EmacsBuiltin::ForwardWord)),
        (one(meta(KeyCode::Char('b'))), EmacsCommand::Builtin(EmacsBuiltin::BackwardWord)),
        (one(control_meta(KeyCode::Char('f'))), EmacsCommand::Builtin(EmacsBuiltin::ForwardSexp)),
        (one(control_meta(KeyCode::Char('b'))), EmacsCommand::Builtin(EmacsBuiltin::BackwardSexp)),
        (one(control(KeyCode::Char('a'))), EmacsCommand::Builtin(EmacsBuiltin::MoveBeginningOfLine)),
        (one(control(KeyCode::Char('e'))), EmacsCommand::Builtin(EmacsBuiltin::MoveEndOfLine)),
        (one(control(KeyCode::Char('l'))), EmacsCommand::Builtin(EmacsBuiltin::RecenterTopBottom)),
        (one(control(KeyCode::Char('v'))), EmacsCommand::Builtin(EmacsBuiltin::ScrollUp)),
        (one(meta(KeyCode::Char('v'))), EmacsCommand::Builtin(EmacsBuiltin::ScrollDown)),
        (one(meta(KeyCode::Char('<'))), EmacsCommand::Builtin(EmacsBuiltin::BeginningOfBuffer)),
        (one(meta(KeyCode::Char('>'))), EmacsCommand::Builtin(EmacsBuiltin::EndOfBuffer)),
        (two(meta(KeyCode::Char('g')), plain(KeyCode::Char('g'))), EmacsCommand::Builtin(EmacsBuiltin::GotoLine)),
        (one(control(KeyCode::Char(' '))), EmacsCommand::Builtin(EmacsBuiltin::SetMark)),
        (two(control(KeyCode::Char('x')), control(KeyCode::Char('x'))), EmacsCommand::Builtin(EmacsBuiltin::ExchangePointAndMark)),
        (one(meta(KeyCode::Char('w'))), EmacsCommand::Builtin(EmacsBuiltin::KillRingSave)),
        (one(control(KeyCode::Char('w'))), EmacsCommand::Builtin(EmacsBuiltin::KillRegion)),
        (one(control(KeyCode::Char('y'))), EmacsCommand::Builtin(EmacsBuiltin::Yank)),
        (one(meta(KeyCode::Char('y'))), EmacsCommand::Builtin(EmacsBuiltin::YankPop)),
        (one(plain(KeyCode::Char('q'))), EmacsCommand::Builtin(EmacsBuiltin::ExitTextMode)),
        (one(plain(KeyCode::Esc)), EmacsCommand::Builtin(EmacsBuiltin::ExitTextMode)),
    ];
    assert(table_view(r@) =~= default_text());
    r
}

/// The default bindings of the minibuffer map; `C-g` reaches it from the global map.
pub open spec fn default_minibuffer() -> Bindings {
    seq![
        (seq![spec_plain(KeyCode::Enter)], EmacsCommand::Builtin(EmacsBuiltin::ExitMinibuffer)),
        (seq![spec_plain(KeyCode::Backspace)], EmacsCommand::Builtin(EmacsBuiltin::DeleteBackwardChar)),
        (seq![spec_control(KeyCode::Char('k'))], EmacsCommand::Builtin(EmacsBuiltin::KillLine)),
        (seq![spec_control(KeyCode::Char('u'))], EmacsCommand::Builtin(EmacsBuiltin::KillBeginningOfLine)),
        (seq![spec_control(KeyCode::Char('d'))], EmacsCommand::Builtin(EmacsBuiltin::DeleteForwardChar)),
        (seq![spec_control(KeyCode::Char('w'))], EmacsCommand::Builtin(EmacsBuiltin::BackwardKillWord)),
        (seq![spec_meta(KeyCode::Backspace)], EmacsCommand::Builtin(EmacsBuiltin::BackwardKillWord)),
        (seq![spec_control(KeyCode::Char('a'))], EmacsCommand::Builtin(EmacsBuiltin::MoveBeginningOfLine)),
        (seq![spec_control(KeyCode::Char('e'))], EmacsCommand::Builtin(EmacsBuiltin::MoveEndOfLine)),
        (seq![spec_control(KeyCode::Char('f'))], EmacsCommand::Builtin(EmacsBuiltin::ForwardChar)),
        (seq![spec_control(KeyCode::Char('b'))], EmacsCommand::Builtin(EmacsBuiltin::BackwardChar)),
        (seq![spec_meta(KeyCode::Char('f'))], EmacsCommand::Builtin(EmacsBuiltin::ForwardWord)),
        (seq![spec_meta(KeyCode::Char('b'))], EmacsCommand::Builtin(EmacsBuiltin::BackwardWord)),
        (seq![spec_meta(KeyCode::Char('h'))], EmacsCommand::Builtin(EmacsBuiltin::MarkWholeInput)),
        (seq![spec_control(KeyCode::Char('y'))], EmacsCommand::Builtin(EmacsBuiltin::Yank)),
    ]
}

fn default_minibuffer_table() -> (r: Vec<(Vec<Chord>, EmacsCommand)>)
    ensures
        table_view(r@) == default_minibuffer(),
{
    let r = vec![
        (one(plain(KeyCode::Enter)), EmacsCommand::Builtin(EmacsBuiltin::ExitMinibuffer)),
        (one(plain(KeyCode::Backspace)), EmacsCommand::Builtin(EmacsBuiltin::DeleteBackwardChar)),
        (one(control(KeyCode::Char('k'))), EmacsCommand::Builtin(EmacsBuiltin::KillLine)),
        (one(control(KeyCode::Char('u'))), EmacsCommand::Builtin(EmacsBuiltin::KillBeginningOfLine)),
        (one(control(KeyCode::Char('d'))), EmacsCommand::Builtin(EmacsBuiltin::DeleteForwardChar)),
        (one(control(KeyCode::Char('w'))), EmacsCommand::Builtin(EmacsBuiltin::BackwardKillWord)),
        (one(meta(KeyCode::Backspace)), EmacsCommand::Builtin(EmacsBuiltin::BackwardKillWord)),
        (one(control(KeyCode::Char('a'))), EmacsCommand::Builtin(EmacsBuiltin::MoveBeginningOfLine)),
        (one(control(KeyCode::Char('e'))), EmacsCommand::Builtin(EmacsBuiltin::MoveEndOfLine)),
        (one(control(KeyCode::Char('f'))), EmacsCommand::Builtin(EmacsBuiltin::ForwardChar)),
        (one(control(KeyCode::Char('b'))), EmacsCommand::Builtin(EmacsBuiltin::BackwardChar)),
        (one(meta(KeyCode::Char('f'))), EmacsCommand::Builtin(EmacsBuiltin::ForwardWord)),
        (one(meta(KeyCode::Char('b'))), EmacsCommand::Builtin(EmacsBuiltin::BackwardWord)),
        (one(meta(KeyCode::Char('h'))), EmacsCommand::Builtin(EmacsBuiltin::MarkWholeInput)),
        (one(control(KeyCode::Char('y'))), EmacsCommand::Builtin(EmacsBuiltin::Yank)),
    ];
    assert(table_view(r@) =~= default_minibuffer());
    r
}

/// The default bindings of the incremental search map.
pub open spec fn default_isearch() -> Bindings {
    seq![
        (seq![spec_plain(KeyCode::Enter)], EmacsCommand::Builtin(EmacsBuiltin::IsearchExit)),
        (seq![spec_plain(KeyCode::Esc)], EmacsCommand::Builtin(EmacsBuiltin::IsearchExit)),
        (seq![spec_plain(KeyCode::Backspace)], EmacsCommand::Builtin(EmacsBuiltin::IsearchDeleteChar)),
        (seq![spec_meta(KeyCode::Char('p'))], EmacsCommand::Builtin(EmacsBuiltin::IsearchPreviousHistory)),
        (seq![spec_meta(KeyCode::Char('n'))], EmacsCommand::Builtin(EmacsBuiltin::IsearchNextHistory)),
    ]
}

fn default_isearch_table() -> (r: Vec<(Vec<Chord>, EmacsCommand)>)
    ensures
        table_view(r@) == default_isearch(),
{
    let r = vec![
        (one(plain(KeyCode::Enter)), EmacsCommand::Builtin(EmacsBuiltin::IsearchExit)),
        (one(plain(KeyCode::Esc)), EmacsCommand::Builtin(EmacsBuiltin::IsearchExit)),
        (one(plain(KeyCode::Backspace)), EmacsCommand::Builtin(EmacsBuiltin::IsearchDeleteChar)),
        (one(meta(KeyCode::Char('p'))), EmacsCommand::Builtin(EmacsBuiltin::IsearchPreviousHistory)),
        (one(meta(KeyCode::Char('n'))), EmacsCommand::Builtin(EmacsBuiltin::IsearchNextHistory)),
    ];
    assert(table_view(r@) =~= default_isearch());
    r
}

/// The bindings after the first `n` of `table` were bound in order.
pub open spec fn bound_in_order(table: Bindings, n: int) -> Bindings
    decreases n,
{
    if n <= 0 {
        Seq::empty()
    } else {
        rebound(bound_in_order(table, n - 1), 0, table[n - 1].0, table[n - 1].1)
    }
}

/// The maps before any override.
pub open spec fn default_maps() -> Maps {
    Maps {
        global: bound_in_order(default_global(), default_global().len() as int),
        text: bound_in_order(default_text(), default_text().len() as int),
        minibuffer: bound_in_order(default_minibuffer(), default_minibuffer().len() as int),
        isearch: bound_in_order(default_isearch(), default_isearch().len() as int),
    }
}

fn bind_table(table: Vec<(Vec<Chord>, EmacsCommand)>) -> (r: Keymap<EmacsCommand>)
    ensures
        r.entries() == bound_in_order(table_view(table@), table@.len() as int),
{
    let ghost all = table_view(table@);
    let mut map: Keymap<EmacsCommand> = Keymap::default();
    let mut i: usize = 0;
    while i < table.len()
        invariant
            i <= table@.len(),
            all == table_view(table@),
            map.entries() == bound_in_order(all, i as int),
        decreases table@.len() - i,
    {
        assert(all[i as int] == (table@[i as int].0@, table@[i as int].1));
        map.bind(copied(table[i].0.as_slice()), table[i].1);
        i += 1;
    }
    map
}

fn copied(seq: &[Chord]) -> (r: Vec<Chord>)
    ensures
        r@ == seq@,
{
    let mut out: Vec<Chord> = Vec::new();
    let mut i: usize = 0;
    while i < seq.len()
        invariant
            i <= seq@.len(),
            out@ == seq@.take(i as int),
        decreases seq@.len() - i,
    {
        out.push(seq[i]);
        assert(seq@.take(i + 1) =~= seq@.take(i as int).push(seq@[i as int]));
        i += 1;
    }
    assert(seq@.take(i as int) =~= seq@);
    out
}

/// The warning for an override whose key sequence does not parse.
pub open spec fn invalid_sequence_warning(seq: Seq<char>) -> Seq<char> {
    "[emacs.keys] invalid key sequence \""@ + seq + "\""@
}

/// The warning for an override with an unknown command.
pub open spec fn unknown_command_warning(name: Seq<char>) -> Seq<char> {
    "[emacs.keys] unknown command \""@ + name + "\""@
}

/// Maps and warnings after the first `n` overrides, each a key sequence and a command name. One
/// that does not make sense leaves the maps alone and warns.
pub open spec fn overridden_by(
    base: Maps,
    entries: Seq<(Seq<char>, Seq<char>)>,
    n: int,
) -> (Maps, Seq<Seq<char>>)
    decreases n,
{
    if n <= 0 {
        (base, Seq::empty())
    } else {
        let (maps, warnings) = overridden_by(base, entries, n - 1);
        let (seq, name) = entries[n - 1];
        match sequence_named(seq) {
            None => (maps, warnings.push(invalid_sequence_warning(seq))),
            Some(chords) => match command_called(name) {
                None => (maps, warnings.push(unknown_command_warning(name))),
                Some(command) => (maps.overridden(chords, command), warnings),
            },
        }
    }
}

fn quoted(prefix: &str, subject: &str) -> (r: String)
    ensures
        r@ == prefix@ + subject@ + "\""@,
{
    let mut out = prefix.to_owned();
    out.append(subject);
    out.append("\"");
    out
}

/// `maps` are the default maps with `overrides` applied in order of their key sequences, and
/// `warnings` the warnings about those that do not make sense.
pub open spec fn built_from(
    maps: Maps,
    warnings: Seq<Seq<char>>,
    overrides: Seq<(Seq<char>, Seq<char>)>,
) -> bool {
    exists|entries: Seq<(Seq<char>, Seq<char>)>|
        {
            &&& sorted::<TextPair>(entries)
            &&& entries.to_multiset() == overrides.to_multiset()
            &&& (maps, warnings) == #[trigger] overridden_by(
                default_maps(),
                entries,
                entries.len() as int,
            )
        }
}

fn copied_pairs(pairs: &[TextPair]) -> (r: Vec<TextPair>)
    ensures
        models(r@) == models(pairs@),
{
    let mut out: Vec<TextPair> = Vec::new();
    let mut i: usize = 0;
    while i < pairs.len()
        invariant
            i <= pairs@.len(),
            models(out@) == models(pairs@).take(i as int),
        decreases pairs@.len() - i,
    {
        let ghost before = models(out@);
        out.push(
            TextPair { first: pairs[i].first.clone(), second: pairs[i].second.clone() },
        );
        assert(models(out@) =~= before.push(models(pairs@)[i as int]));
        assert(models(pairs@).take(i + 1) =~= models(pairs@).take(i as int).push(
            models(pairs@)[i as int],
        ));
        i += 1;
    }
    assert(models(pairs@).take(i as int) =~= models(pairs@));
    out
}

/// The keymaps with `overrides` applied to the defaults, and a warning for each override that does
/// not make sense. An override is a key sequence and a command name; they are applied in order of
/// the sequence, so the order they come in does not matter.
pub fn build_keymaps(overrides: &[TextPair]) -> (r: (KeymapSet, Vec<String>))
    ensures
        built_from(r.0.maps(), crate::text::views(r.1@), models(overrides@)),
{
    let mut set = KeymapSet {
        global: bind_table(default_global_table()),
        text: bind_table(default_text_table()),
        minibuffer: bind_table(default_minibuffer_table()),
        isearch: bind_table(default_isearch_table()),
    };
    let mut warnings: Vec<String> = Vec::new();
    let ordered = sort(copied_pairs(overrides));
    let ghost entries = models(ordered@);
    assert(crate::text::views(warnings@) =~= Seq::<Seq<char>>::empty());
    let mut i: usize = 0;
    while i < ordered.len()
        invariant
            i <= ordered@.len(),
            entries == models(ordered@),
            (set.maps(), crate::text::views(warnings@)) == overridden_by(
                default_maps(),
                entries,
                i as int,
            ),
        decreases ordered@.len() - i,
    {
        let ghost before = crate::text::views(warnings@);
        let entry = &ordered[i];
        assert(entries[i as int] == (entry.first@, entry.second@));
        match parse_key_seq(entry.first.as_str()) {
            None => {
                warnings.push(
                    quoted("[emacs.keys] invalid key sequence \"", entry.first.as_str()),
                );
                assert(crate::text::views(warnings@) =~= before.push(
                    invalid_sequence_warning(entry.first@),
                ));
            },
            Some(seq) => match EmacsCommand::from_name(entry.second.as_str()) {
                None => {
                    warnings.push(
                        quoted("[emacs.keys] unknown command \"", entry.second.as_str()),
                    );
                    assert(crate::text::views(warnings@) =~= before.push(
                        unknown_command_warning(entry.second@),
                    ));
                },
                Some(command) => match command.map_slot() {
                    MapSlot::Global => set.global.bind(seq, command),
                    MapSlot::Text => set.text.bind(seq, command),
                    MapSlot::Minibuffer => set.minibuffer.bind(seq, command),
                    MapSlot::Isearch => set.isearch.bind(seq, command),
                    MapSlot::Both => {
                        set.global.bind(copied(seq.as_slice()), command);
                        set.text.bind(seq, command);
                    },
                },
            },
        }
        i += 1;
    }
    assert((set.maps(), crate::text::views(warnings@)) == overridden_by(
        default_maps(),
        entries,
        entries.len() as int,
    ));
    (set, warnings)
}

/// Overrides have one effect whatever order they come in.
pub proof fn override_order_does_not_matter(
    base: Maps,
    a: Seq<(Seq<char>, Seq<char>)>,
    b: Seq<(Seq<char>, Seq<char>)>,
)
    requires
        sorted::<TextPair>(a),
        sorted::<TextPair>(b),
        a.to_multiset() == b.to_multiset(),
    ensures
        overridden_by(base, a, a.len() as int) == overridden_by(base, b, b.len() as int),
{
    assert forall|x: (Seq<char>, Seq<char>), y: (Seq<char>, Seq<char>)| pair_le(x, y) && pair_le(
        y,
        x,
    ) implies x == y by {
        text_order_is_total(x.0, y.0, x.0);
        text_order_is_total(x.1, y.1, x.1);
    }
    crate::order::sorted_lists_are_unique::<TextPair>(a, b);
}

/// An override never changes the maps of the contexts it is not for: a command of the text map
/// leaves the live map alone.
pub proof fn text_overrides_leave_the_live_map_alone(
    maps: Maps,
    seq: Seq<Chord>,
    command: EmacsCommand,
)
    requires
        command.slot() is Text,
    ensures
        maps.overridden(seq, command).global == maps.global,
        looked_up(maps.overridden(seq, command).text, seq) == Lookup::Bound(command),
{
    crate::emacs::keymap::bind_then_lookup(maps.text, seq, command, seq);
}

} // verus!
