//! The terminal that the client runs in: how it is set up and restored, and what it is told.

use vstd::prelude::*;
use vstd::utf8::encode_utf8;

verus! {

/// How the cursor is shown.
#[derive(Debug, Clone, Copy, PartialEq, Eq, Structural)]
pub enum HostCursorMode {
    Auto,
    Native,
    Drawn,
}

/// Whether the client draws the cursor into the frame. `platform_default` is what the platform
/// prefers.
pub fn should_draw_host_cursor(mode: HostCursorMode, platform_default: bool) -> (r: bool)
    ensures
        r == (match mode {
            HostCursorMode::Auto => platform_default,
            HostCursorMode::Native => false,
            HostCursorMode::Drawn => true,
        }),
{
    match mode {
        HostCursorMode::Auto => platform_default,
        HostCursorMode::Native => false,
        HostCursorMode::Drawn => true,
    }
}

/// Whether the terminal is asked for its colours: not on Windows.
pub fn should_query_host_terminal_theme(windows: bool) -> (r: bool)
    ensures
        r == !windows,
{
    !windows
}

/// Whether the terminal is to report changes of its colours: to a client that shows the whole
/// interface.
pub fn should_enable_host_color_scheme_reports(enable_client_protocols: bool, windows: bool) -> (r:
    bool)
    ensures
        r == (enable_client_protocols && !windows),
{
    enable_client_protocols && should_query_host_terminal_theme(windows)
}

/// The console mode with virtual terminal input switched on, and nothing else changed.
pub fn windows_virtual_terminal_input_mode(mode: u32) -> (r: u32)
    ensures
        r == mode | 0x0200,
        r & 0x0200 == 0x0200,
        r & 0xffff_fdff == mode & 0xffff_fdff,
{
    assert((mode | 0x0200) & 0x0200 == 0x0200) by (bit_vector);
    assert((mode | 0x0200) & 0xffff_fdff == mode & 0xffff_fdff) by (bit_vector);
    mode | 0x0200
}

/// Whether virtual terminal input is on, and the console mode to go back to.
#[derive(Debug, Clone, Copy, PartialEq, Eq, Structural)]
pub struct WindowsVirtualTerminalInputSetup {
    pub active: bool,
    pub restore_mode: Option<u32>,
}

/// What switching on virtual terminal input came to.
#[derive(Debug, PartialEq, Eq)]
pub enum ConsoleAttempt {
    /// The mode could not be read.
    Unreadable,
    /// The mode was read and needs no change.
    AlreadyOn,
    /// The mode could not be set.
    Refused,
    /// The mode was set; `applied` is what it then reads.
    Changed { before: u32, applied: Option<u32> },
}

/// What comes of an attempt to switch on virtual terminal input, and whether the mode is put back at
/// once because the change did not stick.
pub fn windows_virtual_terminal_input(attempt: ConsoleAttempt) -> (r: (
    WindowsVirtualTerminalInputSetup,
    Option<u32>,
))
    ensures
        ({
            let off = WindowsVirtualTerminalInputSetup { active: false, restore_mode: None };
            match attempt {
                ConsoleAttempt::AlreadyOn => r == (
                    WindowsVirtualTerminalInputSetup { active: true, restore_mode: None },
                    None::<u32>,
                ),
                ConsoleAttempt::Changed { before, applied } => if applied matches Some(mode) && mode
                    & 0x0200 != 0 {
                    r == (
                        WindowsVirtualTerminalInputSetup {
                            active: true,
                            restore_mode: Some(before),
                        },
                        None::<u32>,
                    )
                } else {
                    r == (off, Some(before))
                },
                _ => r == (off, None::<u32>),
            }
        }),
{
    let off = WindowsVirtualTerminalInputSetup { active: false, restore_mode: None };
    match attempt {
        ConsoleAttempt::AlreadyOn => (
            WindowsVirtualTerminalInputSetup { active: true, restore_mode: None },
            None,
        ),
        ConsoleAttempt::Changed { before, applied } => {
            if let Some(mode) = applied {
                if mode & 0x0200 != 0 {
                    return (
                        WindowsVirtualTerminalInputSetup {
                            active: true,
                            restore_mode: Some(before),
                        },
                        None,
                    );
                }
            }
            (off, Some(before))
        },
        ConsoleAttempt::Unreadable => (off, None),
        ConsoleAttempt::Refused => (off, None),
    }
}

/// An ASCII letter in lower case; other characters as they are.
pub open spec fn lower(c: char) -> char {
    if 'A' as int <= c as int <= 'Z' as int {
        (c as int + 32) as char
    } else {
        c
    }
}

/// The texts are the same but for the case of ASCII letters.
pub open spec fn same_ignoring_case(a: Seq<char>, b: Seq<char>) -> bool {
    a.len() == b.len() && forall|i: int| 0 <= i < a.len() ==> #[trigger] lower(a[i]) == lower(b[i])
}

fn lower_char(c: char) -> (r: char)
    ensures
        r == lower(c),
{
    match c {
        'A' => 'a',
        'B' => 'b',
        'C' => 'c',
        'D' => 'd',
        'E' => 'e',
        'F' => 'f',
        'G' => 'g',
        'H' => 'h',
        'I' => 'i',
        'J' => 'j',
        'K' => 'k',
        'L' => 'l',
        'M' => 'm',
        'N' => 'n',
        'O' => 'o',
        'P' => 'p',
        'Q' => 'q',
        'R' => 'r',
        'S' => 's',
        'T' => 't',
        'U' => 'u',
        'V' => 'v',
        'W' => 'w',
        'X' => 'x',
        'Y' => 'y',
        'Z' => 'z',
        other => other,
    }
}

/// Whether two texts are the same but for the case of ASCII letters.
pub fn equal_ignoring_case(a: &str, b: &str) -> (r: bool)
    ensures
        r == same_ignoring_case(a@, b@),
{
    let x = crate::text::chars_of(a);
    let y = crate::text::chars_of(b);
    if x.len() != y.len() {
        return false;
    }
    let mut i: usize = 0;
    while i < x.len()
        invariant
            x@ == a@,
            y@ == b@,
            x@.len() == y@.len(),
            i <= x@.len(),
            forall|k: int| 0 <= k < i ==> #[trigger] lower(a@[k]) == lower(b@[k]),
        decreases x@.len() - i,
    {
        if lower_char(x[i]) != lower_char(y[i]) {
            assert(lower(a@[i as int]) != lower(b@[i as int]));
            return false;
        }
        i += 1;
    }
    true
}

pub open spec fn opt_is(name: Option<String>, word: Seq<char>) -> bool {
    name matches Some(n) && same_ignoring_case(n@, word)
}

/// Whether input comes over virtual terminal sequences; the environment may ask for another way.
pub fn windows_vti_input_backend_enabled(backend: &Option<String>) -> (r: bool)
    ensures
        r == !opt_is(*backend, "crossterm"@),
{
    match backend {
        Some(name) => !equal_ignoring_case(name.as_str(), "crossterm"),
        None => true,
    }
}

/// Whether Windows is asked for its own key records; the environment may ask for other ones.
pub fn windows_win32_input_mode_enabled(probe: &Option<String>) -> (r: bool)
    ensures
        r == (*probe is None || opt_is(*probe, "win32"@)),
{
    match probe {
        Some(name) => equal_ignoring_case(name.as_str(), "win32"),
        None => true,
    }
}

/// A step in setting up the terminal.
#[derive(Debug, Clone, Copy, PartialEq, Eq, Structural)]
pub enum SetupStep {
    ClearMouseReporting,
    MouseCapture(bool),
    PasteAndFocus,
    ColorSchemeReports(bool),
    KeyboardEnhancement,
    VirtualTerminalInput,
    /// Only where virtual terminal input came on.
    Win32Input,
    ModifyOtherKeys,
}

/// What setting up depends on besides what is asked for.
#[derive(Debug, PartialEq, Eq)]
pub struct TerminalTraits {
    pub windows: bool,
    pub vti_backend: bool,
    pub win32_input: bool,
    /// The terminal wants modified keys to be asked for.
    pub modify_other_keys: bool,
}

/// The steps that set up the terminal, in order: for the whole interface, or for a terminal that is
/// attached to directly.
pub open spec fn setup_steps(protocols: bool, mouse_capture: bool, about: TerminalTraits) -> Seq<
    SetupStep,
> {
    seq![SetupStep::ClearMouseReporting] + (if protocols {
        seq![SetupStep::MouseCapture(mouse_capture), SetupStep::PasteAndFocus] + (if
        !about.windows {
            seq![SetupStep::ColorSchemeReports(true)]
        } else {
            Seq::empty()
        }) + seq![SetupStep::KeyboardEnhancement]
    } else {
        (if !about.windows {
            seq![SetupStep::ColorSchemeReports(false)]
        } else {
            Seq::empty()
        }) + seq![SetupStep::MouseCapture(mouse_capture)]
    }) + (if protocols && about.windows && about.vti_backend {
        seq![SetupStep::VirtualTerminalInput] + (if about.win32_input {
            seq![SetupStep::Win32Input]
        } else {
            Seq::empty()
        })
    } else {
        Seq::empty()
    }) + (if protocols && about.modify_other_keys {
        seq![SetupStep::ModifyOtherKeys]
    } else {
        Seq::empty()
    })
}

/// The steps that set up the terminal, in order.
pub fn setup_terminal_with_capabilities(
    enable_client_protocols: bool,
    mouse_capture: bool,
    about: &TerminalTraits,
) -> (r: Vec<SetupStep>)
    ensures
        r@ == setup_steps(enable_client_protocols, mouse_capture, *about),
{
    let mut steps: Vec<SetupStep> = Vec::new();
    steps.push(SetupStep::ClearMouseReporting);
    let reports = should_enable_host_color_scheme_reports(enable_client_protocols, about.windows);
    if enable_client_protocols {
        steps.push(SetupStep::MouseCapture(mouse_capture));
        steps.push(SetupStep::PasteAndFocus);
        if reports {
            steps.push(SetupStep::ColorSchemeReports(true));
        }
        steps.push(SetupStep::KeyboardEnhancement);
    } else {
        if should_query_host_terminal_theme(about.windows) {
            steps.push(SetupStep::ColorSchemeReports(false));
        }
        steps.push(SetupStep::MouseCapture(mouse_capture));
    }
    if enable_client_protocols && about.windows && about.vti_backend {
        steps.push(SetupStep::VirtualTerminalInput);
        if about.win32_input {
            steps.push(SetupStep::Win32Input);
        }
    }
    if enable_client_protocols && about.modify_other_keys {
        steps.push(SetupStep::ModifyOtherKeys);
    }
    assert(steps@ =~= setup_steps(enable_client_protocols, mouse_capture, *about));
    steps
}

/// A step in restoring the terminal.
#[derive(Debug, Clone, Copy, PartialEq, Eq, Structural)]
pub enum RestoreStep {
    ClearGraphics,
    ResetModifyOtherKeys,
    PopKeyboardEnhancement,
    DisableFocusPasteAndMouse,
    ClearMouseReporting,
    ConsoleMode(u32),
    LeaveScreen,
    /// The last sequence, with the colour reports switched off where they were on.
    Postlude(bool),
    DisableWin32Input,
}

/// What was set up and is to be restored.
#[derive(Debug, Clone, Copy, PartialEq, Eq, Structural)]
pub struct TerminalGuard {
    pub reset_modify_other_keys: bool,
    pub reset_host_color_scheme_reports: bool,
    pub restore_windows_input_mode: Option<u32>,
}

/// What is to be restored after the steps of a setup.
pub fn terminal_guard(
    enable_client_protocols: bool,
    about: &TerminalTraits,
    console: WindowsVirtualTerminalInputSetup,
) -> (r: TerminalGuard)
    ensures
        r.reset_modify_other_keys == (enable_client_protocols && about.modify_other_keys),
        r.reset_host_color_scheme_reports == (enable_client_protocols && !about.windows),
        r.restore_windows_input_mode == console.restore_mode,
{
    TerminalGuard {
        reset_modify_other_keys: enable_client_protocols && about.modify_other_keys,
        reset_host_color_scheme_reports: should_enable_host_color_scheme_reports(
            enable_client_protocols,
            about.windows,
        ),
        restore_windows_input_mode: console.restore_mode,
    }
}

/// The steps that restore the terminal, in order.
pub open spec fn restore_steps(guard: TerminalGuard, about: TerminalTraits) -> Seq<RestoreStep> {
    seq![RestoreStep::ClearGraphics] + (if guard.reset_modify_other_keys {
        seq![RestoreStep::ResetModifyOtherKeys]
    } else {
        Seq::empty()
    }) + seq![
        RestoreStep::PopKeyboardEnhancement,
        RestoreStep::DisableFocusPasteAndMouse,
        RestoreStep::ClearMouseReporting,
    ] + (match guard.restore_windows_input_mode {
        Some(mode) => seq![RestoreStep::ConsoleMode(mode)],
        None => Seq::empty(),
    }) + seq![
        RestoreStep::LeaveScreen,
        RestoreStep::Postlude(guard.reset_host_color_scheme_reports),
    ] + (if about.windows && about.vti_backend && about.win32_input {
        seq![RestoreStep::DisableWin32Input]
    } else {
        Seq::empty()
    })
}

/// The steps that restore the terminal, in order.
pub fn restore_terminal_state(guard: &TerminalGuard, about: &TerminalTraits) -> (r: Vec<RestoreStep>)
    ensures
        r@ == restore_steps(*guard, *about),
{
    let mut steps: Vec<RestoreStep> = Vec::new();
    steps.push(RestoreStep::ClearGraphics);
    if guard.reset_modify_other_keys {
        steps.push(RestoreStep::ResetModifyOtherKeys);
    }
    steps.push(RestoreStep::PopKeyboardEnhancement);
    steps.push(RestoreStep::DisableFocusPasteAndMouse);
    steps.push(RestoreStep::ClearMouseReporting);
    if let Some(mode) = guard.restore_windows_input_mode {
        steps.push(RestoreStep::ConsoleMode(mode));
    }
    steps.push(RestoreStep::LeaveScreen);
    steps.push(RestoreStep::Postlude(guard.reset_host_color_scheme_reports));
    if about.windows && about.vti_backend && about.win32_input {
        steps.push(RestoreStep::DisableWin32Input);
    }
    assert(steps@ =~= restore_steps(*guard, *about));
    steps
}

/// The sequences with which the terminal's colour reports are switched.
#[derive(Debug, PartialEq, Eq)]
pub struct ColorSchemeSequences {
    pub enable: String,
    pub disable: String,
}

/// The sequence that switches the terminal's colour reports.
pub fn host_color_scheme_report_mode(sequences: &ColorSchemeSequences, enabled: bool) -> (r: String)
    ensures
        r == (if enabled {
            sequences.enable
        } else {
            sequences.disable
        }),
{
    if enabled {
        sequences.enable.clone()
    } else {
        sequences.disable.clone()
    }
}

/// The last sequence of a restored terminal: a visible cursor of the default shape.
pub fn terminal_restore_postlude(sequences: &ColorSchemeSequences, reset_reports: bool) -> (r: String)
    ensures
        r@ == (if reset_reports {
            sequences.disable@ + "\x1b[?25h\x1b[0 q"@
        } else {
            "\x1b[?25h\x1b[0 q"@
        }),
{
    if reset_reports {
        let mut text = sequences.disable.clone();
        text.append("\x1b[?25h\x1b[0 q");
        text
    } else {
        "\x1b[?25h\x1b[0 q".to_owned()
    }
}

/// The characters that would end or break a title.
pub open spec fn breaks_title(c: char) -> bool {
    c == '\u{1b}' || c == '\u{7}' || c == '\u{9c}'
}

/// A title without what would break it.
pub open spec fn safe_title(title: Seq<char>) -> Seq<char> {
    title.filter(|c: char| !breaks_title(c))
}

/// The sequence that sets the terminal's title.
pub open spec fn title_sequence(title: Option<Seq<char>>) -> Seq<char> {
    "\x1b]0;"@ + safe_title(
        match title {
            Some(t) => t,
            None => "herdr"@,
        },
    ) + "\x07"@
}

/// The bytes that set the terminal's title; without one it is the program's name.
pub fn window_title_osc(title: &Option<String>) -> (r: Vec<u8>)
    ensures
        r@ == encode_utf8(
            title_sequence(
                match *title {
                    Some(t) => Some(t@),
                    None => None,
                },
            ),
        ),
{
    let own = "herdr".to_owned();
    let title = match title {
        Some(title) => title,
        None => &own,
    };
    let chars = crate::text::chars_of(title.as_str());
    let mut text = "\x1b]0;".to_owned();
    let ghost head = text@;
    let ghost keep = |c: char| !breaks_title(c);
    let mut i: usize = 0;
    proof {
        reveal(Seq::filter);
        assert(chars@.take(0) =~= Seq::<char>::empty());
        assert(text@ =~= head + chars@.take(0).filter(keep));
    }
    while i < chars.len()
        invariant
            i <= chars@.len(),
            keep == (|c: char| !breaks_title(c)),
            text@ == head + chars@.take(i as int).filter(keep),
        decreases chars@.len() - i,
    {
        let c = chars[i];
        proof {
            reveal(Seq::filter);
            assert(chars@.take(i + 1).drop_last() =~= chars@.take(i as int));
            assert(chars@.take(i + 1).last() == c);
        }
        if c != '\u{1b}' && c != '\u{7}' && c != '\u{9c}' {
            text.push(c);
            assert(text@ =~= head + chars@.take(i + 1).filter(keep));
        }
        i += 1;
    }
    assert(chars@.take(i as int) =~= chars@);
    text.append("\x07");
    text.as_str().as_bytes_vec()
}

/// The size of a terminal's window in cells and in pixels.
#[derive(Debug, PartialEq, Eq)]
pub struct WindowSize {
    pub columns: u16,
    pub rows: u16,
    pub width: u16,
    pub height: u16,
}

/// A quotient, but at least one.
pub open spec fn at_least_one(a: u16, b: u16) -> int {
    if a < b {
        1
    } else {
        a as int / b as int
    }
}

/// The size that a client reports: columns and rows, and, where images are shown, the width and
/// height of a cell. `size` and `window` are what the terminal says, where it says it.
pub fn terminal_geometry(
    size: Option<(u16, u16)>,
    kitty_graphics_enabled: bool,
    window: Option<WindowSize>,
) -> (r: (u16, u16, u32, u32))
    ensures
        (r.0, r.1) == (match size {
            Some(known) => known,
            None => (80u16, 24u16),
        }),
        !kitty_graphics_enabled ==> r.2 == 0 && r.3 == 0,
        kitty_graphics_enabled ==> match window {
            Some(w) if w.columns != 0 && w.rows != 0 && w.width != 0 && w.height != 0 => r.2
                == at_least_one(w.width, w.columns) && r.3 == at_least_one(w.height, w.rows),
            _ => r.2 == 8 && r.3 == 16,
        },
{
    let (cols, rows) = match size {
        Some(known) => known,
        None => (80, 24),
    };
    if !kitty_graphics_enabled {
        return (cols, rows, 0, 0);
    }
    match window {
        None => (cols, rows, 8, 16),
        Some(w) => {
            if w.columns == 0 || w.rows == 0 || w.width == 0 || w.height == 0 {
                return (cols, rows, 8, 16);
            }
            let cell_width: u16 = if w.width < w.columns {
                1
            } else {
                w.width / w.columns
            };
            let cell_height: u16 = if w.height < w.rows {
                1
            } else {
                w.height / w.rows
            };
            (cols, rows, cell_width as u32, cell_height as u32)
        },
    }
}

/// The size that was last reported.
#[derive(Debug, PartialEq, Eq)]
pub struct ResizePoll {
    pub last: (u16, u16, u32, u32),
}

impl ResizePoll {
    /// Takes the size as it is now; says what to report, if anything changed.
    pub fn poll(&mut self, now: (u16, u16, u32, u32)) -> (r: Option<(u16, u16, u32, u32)>)
        ensures
            final(self).last == now,
            r == (if now == old(self).last {
                None
            } else {
                Some(now)
            }),
    {
        if now.0 == self.last.0 && now.1 == self.last.1 && now.2 == self.last.2 && now.3
            == self.last.3 {
            None
        } else {
            self.last = now;
            Some(now)
        }
    }
}

/// No title ends its own sequence early.
pub proof fn titles_cannot_break_out(title: Seq<char>, i: int)
    requires
        0 <= i < safe_title(title).len(),
    ensures
        !breaks_title(safe_title(title)[i]),
    decreases title.len(),
{
    reveal(Seq::filter);
    let keep = |c: char| !breaks_title(c);
    if title.len() > 0 {
        let rest = title.drop_last();
        if i < rest.filter(keep).len() {
            titles_cannot_break_out(rest, i);
        }
    }
}

/// What setting up switches on for the colours of the terminal, restoring switches off.
pub proof fn restoring_undoes_the_setup(
    mouse_capture: bool,
    about: TerminalTraits,
    guard: TerminalGuard,
)
    requires
        guard.reset_host_color_scheme_reports == !about.windows,
        guard.reset_modify_other_keys == about.modify_other_keys,
    ensures
        setup_steps(true, mouse_capture, about).contains(SetupStep::ColorSchemeReports(true))
            ==> restore_steps(guard, about).contains(RestoreStep::Postlude(true)),
        setup_steps(true, mouse_capture, about).contains(SetupStep::ModifyOtherKeys)
            ==> restore_steps(guard, about).contains(RestoreStep::ResetModifyOtherKeys),
        restore_steps(guard, about).contains(RestoreStep::DisableFocusPasteAndMouse),
{
    let steps = restore_steps(guard, about);
    let n = 1 + (if guard.reset_modify_other_keys {
        1int
    } else {
        0
    });
    assert(steps[n + 1] == RestoreStep::DisableFocusPasteAndMouse);
    let m = n + 3 + (if guard.restore_windows_input_mode is Some {
        1int
    } else {
        0
    });
    assert(steps[m + 1] == RestoreStep::Postlude(guard.reset_host_color_scheme_reports));
    if guard.reset_modify_other_keys {
        assert(steps[1] == RestoreStep::ResetModifyOtherKeys);
    }
    let set = setup_steps(true, mouse_capture, about);
    if about.windows && set.contains(SetupStep::ColorSchemeReports(true)) {
        let k = choose|k: int| 0 <= k < set.len() && set[k] == SetupStep::ColorSchemeReports(true);
        assert(false);
    }
    if !about.modify_other_keys && set.contains(SetupStep::ModifyOtherKeys) {
        let k = choose|k: int| 0 <= k < set.len() && set[k] == SetupStep::ModifyOtherKeys;
        assert(false);
    }
}

/// A title is shown as it is but for the characters that would end it: escapes, bells and string
/// terminators are left out, and nothing else is.
pub proof fn titles_keep_their_text(a: Seq<char>, b: Seq<char>, c: char)
    ensures
        safe_title(a + b) == safe_title(a) + safe_title(b),
        safe_title(seq![c]) == (if c == '\u{1b}' || c == '\u{7}' || c == '\u{9c}' {
            Seq::empty()
        } else {
            seq![c]
        }),
        title_sequence(Some(a)) == "\x1b]0;"@ + safe_title(a) + "\x07"@,
        title_sequence(None) == title_sequence(Some("herdr"@)),
{
    reveal(Seq::filter);
    let keep = |c: char| !breaks_title(c);
    Seq::<char>::filter_distributes_over_add(a, b, keep);
    assert(seq![c].drop_last() =~= Seq::<char>::empty());
    reveal_with_fuel(Seq::filter, 2);
    assert(safe_title(seq![c]) =~= if keep(c) {
        seq![c]
    } else {
        Seq::empty()
    });
}

/// The whole interface switches everything on, in order; a terminal that is attached to directly is
/// left without the client's protocols.
pub proof fn terminals_are_set_up(mouse_capture: bool, about: TerminalTraits)
    requires
        !about.windows,
    ensures
        ({
            let whole = seq![
                SetupStep::ClearMouseReporting,
                SetupStep::MouseCapture(mouse_capture),
                SetupStep::PasteAndFocus,
                SetupStep::ColorSchemeReports(true),
                SetupStep::KeyboardEnhancement,
            ];
            setup_steps(true, mouse_capture, about) == if about.modify_other_keys {
                whole.push(SetupStep::ModifyOtherKeys)
            } else {
                whole
            }
        }),
        setup_steps(false, mouse_capture, about) == seq![
            SetupStep::ClearMouseReporting,
            SetupStep::ColorSchemeReports(false),
            SetupStep::MouseCapture(mouse_capture),
        ],
{
    let whole = seq![
        SetupStep::ClearMouseReporting,
        SetupStep::MouseCapture(mouse_capture),
        SetupStep::PasteAndFocus,
        SetupStep::ColorSchemeReports(true),
        SetupStep::KeyboardEnhancement,
    ];
    assert(setup_steps(true, mouse_capture, about) =~= if about.modify_other_keys {
        whole.push(SetupStep::ModifyOtherKeys)
    } else {
        whole
    });
    assert(setup_steps(false, mouse_capture, about) =~= seq![
        SetupStep::ClearMouseReporting,
        SetupStep::ColorSchemeReports(false),
        SetupStep::MouseCapture(mouse_capture),
    ]);
}

/// On Windows nothing is said of colours; the input modes are set for a backend that has them, and
/// only for the whole interface.
pub proof fn windows_terminals_are_set_up(mouse_capture: bool, about: TerminalTraits)
    requires
        about.windows,
    ensures
        ({
            let whole = seq![
                SetupStep::ClearMouseReporting,
                SetupStep::MouseCapture(mouse_capture),
                SetupStep::PasteAndFocus,
                SetupStep::KeyboardEnhancement,
            ];
            let input = if about.vti_backend && about.win32_input {
                seq![SetupStep::VirtualTerminalInput, SetupStep::Win32Input]
            } else if about.vti_backend {
                seq![SetupStep::VirtualTerminalInput]
            } else {
                Seq::empty()
            };
            &&& !about.modify_other_keys ==> setup_steps(true, mouse_capture, about) == whole + input
            &&& about.modify_other_keys ==> setup_steps(true, mouse_capture, about) == (whole
                + input).push(SetupStep::ModifyOtherKeys)
        }),
        setup_steps(false, mouse_capture, about) == seq![
            SetupStep::ClearMouseReporting,
            SetupStep::MouseCapture(mouse_capture),
        ],
{
    assert(setup_steps(false, mouse_capture, about) =~= seq![
        SetupStep::ClearMouseReporting,
        SetupStep::MouseCapture(mouse_capture),
    ]);
}

/// Restoring ends with the screen left and the cursor given back, and the console gets the mode it
/// had.
pub proof fn terminals_are_given_back(guard: TerminalGuard, about: TerminalTraits)
    requires
        !about.windows,
    ensures
        ({
            let steps = restore_steps(guard, about);
            let n = steps.len() as int;
            &&& n >= 6
            &&& steps[0] == RestoreStep::ClearGraphics
            &&& steps[n - 2] == RestoreStep::LeaveScreen
            &&& steps[n - 1] == RestoreStep::Postlude(guard.reset_host_color_scheme_reports)
            &&& guard.reset_modify_other_keys ==> steps[1] == RestoreStep::ResetModifyOtherKeys
            &&& guard.restore_windows_input_mode matches Some(mode) ==> steps[n - 3]
                == RestoreStep::ConsoleMode(mode)
        }),
{
}

} // verus!
