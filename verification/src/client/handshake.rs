//! How a client introduces itself to a server, and when it tries again.

use crate::client::error::ClientError;
use crate::text::same_text;
use vstd::prelude::*;

verus! {

/// The time to wait for a local server's answer, in seconds.
pub const LOCAL_HANDSHAKE_READ_TIMEOUT: u64 = 5;

/// The time to wait for a remote server's answer, in seconds. It covers the time that a fresh SSH
/// connection takes.
pub const REMOTE_HANDSHAKE_READ_TIMEOUT: u64 = 60;

/// How long a client looks for the successor of its server, in milliseconds.
pub const LIVE_HANDOFF_RECONNECT_TIMEOUT_MS: u64 = 30000;

/// The pause between two attempts to reach a local successor, in milliseconds.
pub const LOCAL_HANDOFF_PAUSE_MS: u64 = 25;

/// The pause between two attempts to reach a remote successor, in milliseconds.
pub const REMOTE_HANDOFF_PAUSE_MS: u64 = 200;

/// How a server describes what is shown.
#[derive(Debug, Clone, Copy, PartialEq, Eq, Structural)]
pub enum RenderEncoding {
    SemanticFrame,
    TerminalAnsi,
}

/// What a client is there for.
#[derive(Debug, Clone, Copy, PartialEq, Eq, Structural)]
pub enum ClientLaunchMode {
    App,
    TerminalAttach,
    FederationCandidate,
}

/// Whose key bindings count.
#[derive(Debug, PartialEq, Eq)]
pub enum ClientKeybindings {
    Server,
    Local { keys_toml: String },
}

/// A client's first message.
#[derive(Debug, PartialEq, Eq)]
pub struct Hello {
    pub version: u32,
    pub cols: u16,
    pub rows: u16,
    pub cell_width_px: u32,
    pub cell_height_px: u32,
    pub requested_encoding: RenderEncoding,
    pub keybindings: ClientKeybindings,
    pub launch_mode: ClientLaunchMode,
}

pub open spec fn encoding_named(name: Option<Seq<char>>) -> RenderEncoding {
    match name {
        Some(n) if n == "terminal-ansi"@ || n == "terminal_ansi"@ || n == "ansi"@ =>
            RenderEncoding::TerminalAnsi,
        _ => RenderEncoding::SemanticFrame,
    }
}

/// The encoding that the environment asks for.
pub fn requested_render_encoding(name: &Option<String>) -> (r: RenderEncoding)
    ensures
        r == encoding_named(
            match *name {
                Some(n) => Some(n@),
                None => None,
            },
        ),
{
    match name {
        Some(name) => {
            let name = name.as_str();
            if same_text(name, "terminal-ansi") || same_text(name, "terminal_ansi") || same_text(
                name,
                "ansi",
            ) {
                RenderEncoding::TerminalAnsi
            } else {
                RenderEncoding::SemanticFrame
            }
        },
        None => RenderEncoding::SemanticFrame,
    }
}

/// The key bindings that a client brings along: its own profile, where it has one.
pub fn requested_keybindings(profile: Option<String>) -> (r: ClientKeybindings)
    ensures
        r == (match profile {
            Some(keys_toml) => ClientKeybindings::Local { keys_toml },
            None => ClientKeybindings::Server,
        }),
{
    match profile {
        Some(keys_toml) => ClientKeybindings::Local { keys_toml },
        None => ClientKeybindings::Server,
    }
}

/// What a client is there for. A direct attachment is one whatever else it is.
pub fn launch_mode(direct_attach_requested: bool, federation_candidate: bool) -> (r: ClientLaunchMode)
    ensures
        r == (if direct_attach_requested {
            ClientLaunchMode::TerminalAttach
        } else if federation_candidate {
            ClientLaunchMode::FederationCandidate
        } else {
            ClientLaunchMode::App
        }),
{
    if direct_attach_requested {
        ClientLaunchMode::TerminalAttach
    } else if federation_candidate {
        ClientLaunchMode::FederationCandidate
    } else {
        ClientLaunchMode::App
    }
}

/// How long a client waits for the server's answer, in seconds: longer where SSH may lie between.
pub fn handshake_read_timeout(is_remote_client: bool, federation_candidate: bool) -> (r: u64)
    ensures
        r == (if federation_candidate || is_remote_client {
            REMOTE_HANDSHAKE_READ_TIMEOUT
        } else {
            LOCAL_HANDSHAKE_READ_TIMEOUT
        }),
{
    if federation_candidate || is_remote_client {
        REMOTE_HANDSHAKE_READ_TIMEOUT
    } else {
        LOCAL_HANDSHAKE_READ_TIMEOUT
    }
}

/// A client's first message. `size` is the terminal's columns and rows, and the width and height of
/// a cell.
pub fn hello(
    version: u32,
    size: (u16, u16, u32, u32),
    requested_encoding: RenderEncoding,
    keybindings: ClientKeybindings,
    direct_attach_requested: bool,
    federation_candidate: bool,
) -> (r: Hello)
    ensures
        r.version == version,
        (r.cols, r.rows, r.cell_width_px, r.cell_height_px) == size,
        r.requested_encoding == requested_encoding,
        r.keybindings == keybindings,
        r.launch_mode is TerminalAttach == direct_attach_requested,
        r.launch_mode is FederationCandidate == (federation_candidate && !direct_attach_requested),
{
    Hello {
        version,
        cols: size.0,
        rows: size.1,
        cell_width_px: size.2,
        cell_height_px: size.3,
        requested_encoding,
        keybindings,
        launch_mode: launch_mode(direct_attach_requested, federation_candidate),
    }
}

/// A server's answer to the first message.
#[derive(Debug, PartialEq, Eq)]
pub enum HandshakeReply {
    Welcome { version: u32, encoding: RenderEncoding, error: Option<String> },
    /// A message that is no answer.
    Unexpected,
}

/// What a server's answer comes to: the encoding, or why the client is refused.
pub fn judge_welcome(reply: HandshakeReply) -> (r: Result<RenderEncoding, ClientError>)
    ensures
        match reply {
            HandshakeReply::Welcome { version, encoding, error } => match error {
                Some(error) => r == Err::<RenderEncoding, ClientError>(
                    ClientError::HandshakeRejected { version, error },
                ),
                None => r == Ok::<RenderEncoding, ClientError>(encoding),
            },
            HandshakeReply::Unexpected => r matches Err(ClientError::Protocol(text)) && text@
                == "expected Welcome message"@,
        },
{
    match reply {
        HandshakeReply::Welcome { version, encoding, error } => match error {
            Some(error) => Err(ClientError::HandshakeRejected { version, error }),
            None => Ok(encoding),
        },
        HandshakeReply::Unexpected => Err(
            ClientError::Protocol("expected Welcome message".to_owned()),
        ),
    }
}

/// What a terminal's watcher or controller makes of the encoding: it can only show one.
pub fn judge_session_encoding(encoding: RenderEncoding) -> (r: Result<(), String>)
    ensures
        encoding is TerminalAnsi ==> r is Ok,
        encoding is SemanticFrame ==> (r matches Err(text) && text@
            == "terminal session observe negotiated unsupported encoding SemanticFrame"@),
{
    match encoding {
        RenderEncoding::TerminalAnsi => Ok(()),
        RenderEncoding::SemanticFrame => Err(
            "terminal session observe negotiated unsupported encoding SemanticFrame".to_owned(),
        ),
    }
}

/// Whether another attempt at a local successor can help: a server that answers and refuses will
/// refuse again.
pub open spec fn worth_retrying(error: ClientError) -> bool {
    !(error is HandshakeRejected) && !(error is Protocol)
}

/// What follows a failed attempt to reach a local successor: the pause before the next one, or the
/// error.
pub fn after_local_attempt(error: ClientError, now: u64, deadline: u64) -> (r: Result<
    u64,
    ClientError,
>)
    ensures
        r == (if worth_retrying(error) && now < deadline {
            Ok::<u64, ClientError>(LOCAL_HANDOFF_PAUSE_MS)
        } else {
            Err::<u64, ClientError>(error)
        }),
{
    match error {
        ClientError::HandshakeRejected { .. } => Err(error),
        ClientError::Protocol(_) => Err(error),
        _ => if now >= deadline {
            Err(error)
        } else {
            Ok(LOCAL_HANDOFF_PAUSE_MS)
        },
    }
}

/// What follows a failed attempt to reach a remote successor: the pause before the next one, or the
/// error.
pub fn after_remote_attempt(error: ClientError, now: u64, deadline: u64) -> (r: Result<
    u64,
    ClientError,
>)
    ensures
        r == (if now < deadline {
            Ok::<u64, ClientError>(REMOTE_HANDOFF_PAUSE_MS)
        } else {
            Err::<u64, ClientError>(error)
        }),
{
    if now < deadline {
        Ok(REMOTE_HANDOFF_PAUSE_MS)
    } else {
        Err(error)
    }
}

/// What reading from a server came to.
#[derive(Debug, PartialEq, Eq)]
pub enum ReadOutcome {
    Message,
    Eof,
    WouldBlock,
    Failed,
}

/// What the reader of a server does next.
#[derive(Debug, Clone, Copy, PartialEq, Eq, Structural)]
pub enum ReaderStep {
    /// Hand the message on and read the next.
    Forward,
    /// Say that the connection broke off, and end.
    Disconnect,
    /// Read again after a moment.
    Retry,
}

/// What the reader of a server does next.
pub fn after_read(outcome: ReadOutcome) -> (r: ReaderStep)
    ensures
        r == (match outcome {
            ReadOutcome::Message => ReaderStep::Forward,
            ReadOutcome::WouldBlock => ReaderStep::Retry,
            _ => ReaderStep::Disconnect,
        }),
{
    match outcome {
        ReadOutcome::Message => ReaderStep::Forward,
        ReadOutcome::WouldBlock => ReaderStep::Retry,
        ReadOutcome::Eof => ReaderStep::Disconnect,
        ReadOutcome::Failed => ReaderStep::Disconnect,
    }
}

/// How a client runs, as its configuration and its command line have it.
#[derive(Debug, PartialEq, Eq)]
pub struct ClientPlan {
    pub direct_attach: bool,
    pub kitty_graphics_enabled: bool,
    /// The client draws the cursor itself.
    pub draw_host_cursor: bool,
    /// The terminal is asked for its colours.
    pub query_theme: bool,
    /// The longest message that is read.
    pub max_frame_size: usize,
}

/// How a client runs. Images and the drawn cursor are for the whole interface, not for a terminal
/// that is attached to directly.
pub fn client_plan(
    attach_requested: bool,
    kitty_graphics: bool,
    wants_drawn_cursor: bool,
    terminal_has_theme: bool,
    max_frame_size: usize,
    max_graphics_frame_size: usize,
) -> (r: ClientPlan)
    ensures
        r.direct_attach == attach_requested,
        r.kitty_graphics_enabled == (kitty_graphics && !attach_requested),
        r.draw_host_cursor == (wants_drawn_cursor && !attach_requested),
        r.query_theme == (terminal_has_theme && !attach_requested),
        r.max_frame_size == (if kitty_graphics && !attach_requested {
            max_graphics_frame_size
        } else {
            max_frame_size
        }),
{
    let kitty_graphics_enabled = kitty_graphics && !attach_requested;
    ClientPlan {
        direct_attach: attach_requested,
        kitty_graphics_enabled,
        draw_host_cursor: wants_drawn_cursor && !attach_requested,
        query_theme: terminal_has_theme && !attach_requested,
        max_frame_size: if kitty_graphics_enabled {
            max_graphics_frame_size
        } else {
            max_frame_size
        },
    }
}

/// How the client's process ends: with a line of its own and an error code, unless the loop ended
/// well or the user detached.
#[derive(Debug, PartialEq, Eq)]
pub struct ClientExit {
    pub line: Option<ClientError>,
    pub code: i32,
}

/// How the client's process ends.
pub fn client_exit(result: Result<(), ClientError>) -> (r: ClientExit)
    ensures
        match result {
            Ok(_) => r.line is None && r.code == 0,
            Err(error) => r.line == Some(error) && r.code == (if error matches
                ClientError::ServerShutdown { reason: Some(why) } && why@ == "detached"@ {
                0int
            } else {
                1
            }),
        },
{
    match result {
        Ok(_) => ClientExit { line: None, code: 0 },
        Err(error) => {
            let code: i32 = if error.is_detach() {
                0
            } else {
                1
            };
            ClientExit { line: Some(error), code }
        },
    }
}

/// The terminal's own encoding is used by those who ask for it under one of its names; everyone else
/// gets frames.
pub proof fn encodings_are_asked_for_by_name(name: Seq<char>)
    ensures
        encoding_named(None) is SemanticFrame,
        encoding_named(Some("ansi"@)) is TerminalAnsi,
        encoding_named(Some("terminal-ansi"@)) is TerminalAnsi,
        encoding_named(Some("terminal_ansi"@)) is TerminalAnsi,
        encoding_named(Some(name)) is TerminalAnsi ==> name == "ansi"@ || name == "terminal-ansi"@
            || name == "terminal_ansi"@,
{
}

/// A server that answered and refused is not asked again; one that could not be reached, or that went
/// away, is.
pub proof fn refusals_are_final(version: u32, words: String)
    ensures
        !worth_retrying(ClientError::HandshakeRejected { version, error: words }),
        !worth_retrying(ClientError::Protocol(words)),
        worth_retrying(ClientError::ConnectionFailed(words)),
        worth_retrying(ClientError::ConnectionLost(words)),
        worth_retrying(ClientError::ServerShutdown { reason: Some(words) }),
        worth_retrying(ClientError::ServerShutdown { reason: None }),
{
}

} // verus!
