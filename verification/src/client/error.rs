//! Why a client ends.

use vstd::prelude::*;

verus! {

/// Why a client could not start, or why it ended.
#[derive(Debug, PartialEq, Eq)]
pub enum ClientError {
    /// The server's client socket could not be reached.
    ConnectionFailed(String),
    /// The server refused the handshake.
    HandshakeRejected { version: u32, error: String },
    /// The server shut down.
    ServerShutdown { reason: Option<String> },
    /// The connection broke off.
    ConnectionLost(String),
    /// A message could not be read.
    Protocol(String),
}

/// Why a message could not be read.
#[derive(Debug, PartialEq, Eq)]
pub enum FramingError {
    /// The other side closed the connection.
    UnexpectedEof,
    Io(String),
    Other(String),
}

/// What the words of an error depend on besides the error.
#[derive(Debug, PartialEq, Eq)]
pub struct Surroundings {
    pub socket_path: String,
    /// The command that attaches to a remote server again, where the client is one of a remote
    /// server.
    pub remote_reattach: Option<String>,
    /// The command that attaches to this server again.
    pub local_attach: String,
}

/// The words of an error.
pub open spec fn error_words(error: ClientError, around: Surroundings) -> Seq<char> {
    match error {
        ClientError::ConnectionFailed(err) => "failed to connect to server: "@ + err@
            + "\nIs herdr server running? Start it with `herdr server`."@ + "\nSocket path: "@
            + around.socket_path@,
        ClientError::HandshakeRejected { version, error } => "server rejected handshake (version "@
            + crate::text::decimal(version as nat) + "): "@ + error@,
        ClientError::ServerShutdown { reason } => match reason {
            Some(why) => if why@ == "detached"@ {
                match around.remote_reattach {
                    Some(command) => "detached from remote server"@ + "\nRun `"@ + command@
                        + "` to reattach"@,
                    None => "detached from server"@ + "\nRun `"@ + around.local_attach@
                        + "` to reattach"@,
                }
            } else {
                "server shut down"@ + ": "@ + why@
            },
            None => "server shut down"@,
        },
        ClientError::ConnectionLost(err) => match around.remote_reattach {
            Some(command) => "lost connection to remote Herdr: "@ + err@
                + "\nIf the remote server survived the SSH or network drop, its panes may still be running."@
                + "\nRun `"@ + command@ + "` to reattach"@,
            None => "lost connection to server: "@ + err@,
        },
        ClientError::Protocol(err) => "protocol error: "@ + err@,
    }
}

impl ClientError {
    /// The words of the error.
    pub fn message(&self, around: &Surroundings) -> (r: String)
        ensures
            r@ == error_words(*self, *around),
    {
        match self {
            ClientError::ConnectionFailed(err) => {
                let mut text = "failed to connect to server: ".to_owned();
                text.append(err.as_str());
                text.append("\nIs herdr server running? Start it with `herdr server`.");
                text.append("\nSocket path: ");
                text.append(around.socket_path.as_str());
                text
            },
            ClientError::HandshakeRejected { version, error } => {
                let mut text = "server rejected handshake (version ".to_owned();
                crate::text::push_decimal(&mut text, *version as u64);
                text.append("): ");
                text.append(error.as_str());
                text
            },
            ClientError::ServerShutdown { reason } => match reason {
                Some(why) => {
                    if crate::text::same_text(why.as_str(), "detached") {
                        let mut text;
                        match &around.remote_reattach {
                            Some(command) => {
                                text = "detached from remote server".to_owned();
                                text.append("\nRun `");
                                text.append(command.as_str());
                            },
                            None => {
                                text = "detached from server".to_owned();
                                text.append("\nRun `");
                                text.append(around.local_attach.as_str());
                            },
                        }
                        text.append("` to reattach");
                        text
                    } else {
                        let mut text = "server shut down".to_owned();
                        text.append(": ");
                        text.append(why.as_str());
                        text
                    }
                },
                None => "server shut down".to_owned(),
            },
            ClientError::ConnectionLost(err) => match &around.remote_reattach {
                Some(command) => {
                    let mut text = "lost connection to remote Herdr: ".to_owned();
                    text.append(err.as_str());
                    text.append(
                        "\nIf the remote server survived the SSH or network drop, its panes may still be running.",
                    );
                    text.append("\nRun `");
                    text.append(command.as_str());
                    text.append("` to reattach");
                    text
                },
                None => {
                    let mut text = "lost connection to server: ".to_owned();
                    text.append(err.as_str());
                    text
                },
            },
            ClientError::Protocol(err) => {
                let mut text = "protocol error: ".to_owned();
                text.append(err.as_str());
                text
            },
        }
    }

    /// What a message that could not be read means for the connection.
    pub fn from_framing(err: FramingError) -> (r: Self)
        ensures
            match err {
                FramingError::UnexpectedEof => r matches ClientError::ConnectionLost(text) && text@
                    == "server closed connection"@,
                FramingError::Io(text) => r == ClientError::ConnectionLost(text),
                FramingError::Other(text) => r == ClientError::Protocol(text),
            },
    {
        match err {
            FramingError::UnexpectedEof => ClientError::ConnectionLost(
                "server closed connection".to_owned(),
            ),
            FramingError::Io(text) => ClientError::ConnectionLost(text),
            FramingError::Other(text) => ClientError::Protocol(text),
        }
    }

    /// Whether the user detached: the client then ends without an error.
    pub fn is_detach(&self) -> (r: bool)
        ensures
            r == (self matches ClientError::ServerShutdown { reason: Some(why) } && why@
                == "detached"@),
    {
        match self {
            ClientError::ServerShutdown { reason: Some(why) } => crate::text::same_text(
                why.as_str(),
                "detached",
            ),
            _ => false,
        }
    }
}

/// Whoever detached is told how to attach again: to the remote server where it is one, and otherwise
/// to this one. A lost remote server is told of with the same command. Other ends are told with their
/// reason.
pub proof fn errors_say_how_to_come_back(around: Surroundings, why: String, command: String)
    requires
        around.remote_reattach is Some ==> around.remote_reattach == Some(command),
        around.remote_reattach is None ==> around.local_attach == command,
    ensures
        ({
            let again = "\nRun `"@ + command@ + "` to reattach"@;
            let ended = error_words(ClientError::ServerShutdown { reason: Some(why) }, around);
            let lost = error_words(ClientError::ConnectionLost(why), around);
            &&& why@ == "detached"@ ==> again.is_suffix_of(ended)
            &&& why@ != "detached"@ ==> ended == "server shut down: "@ + why@
            &&& around.remote_reattach is Some ==> again.is_suffix_of(lost)
            &&& around.remote_reattach is None ==> lost == "lost connection to server: "@ + why@
            &&& around.socket_path@.is_suffix_of(
                error_words(ClientError::ConnectionFailed(why), around),
            )
            &&& why@.is_suffix_of(error_words(ClientError::Protocol(why), around))
        }),
{
    reveal_strlit("server shut down");
    reveal_strlit(": ");
    reveal_strlit("server shut down: ");
    assert("server shut down: "@ =~= "server shut down"@ + ": "@);
    let again = "\nRun `"@ + command@ + "` to reattach"@;
    let ended = error_words(ClientError::ServerShutdown { reason: Some(why) }, around);
    let lost = error_words(ClientError::ConnectionLost(why), around);
    if why@ == "detached"@ {
        if around.remote_reattach is Some {
            assert(ended =~= "detached from remote server"@ + again);
        } else {
            assert(ended =~= "detached from server"@ + again);
        }
        assert(again =~= ended.subrange(ended.len() - again.len(), ended.len() as int));
    } else {
        assert(ended =~= "server shut down: "@ + why@);
    }
    if around.remote_reattach is Some {
        assert(again =~= lost.subrange(lost.len() - again.len(), lost.len() as int));
    }
    let unreached = error_words(ClientError::ConnectionFailed(why), around);
    let path = around.socket_path@;
    assert(path =~= unreached.subrange(unreached.len() - path.len(), unreached.len() as int));
    let strange = error_words(ClientError::Protocol(why), around);
    assert(why@ =~= strange.subrange(strange.len() - why@.len(), strange.len() as int));
}

} // verus!
