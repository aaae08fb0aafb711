//! Notifications: what the server asks for and what the client says itself.

use crate::client::switching::{NotifyKind, Rejection, Toast};
use crate::text::same_text;
use vstd::prelude::*;

verus! {

#[derive(Debug, Clone, Copy, PartialEq, Eq, Structural)]
pub enum Sound {
    Done,
    Request,
}

pub open spec fn sound_of(message: Seq<char>) -> Option<Sound> {
    if message == "agent done"@ {
        Some(Sound::Done)
    } else if message == "agent attention"@ {
        Some(Sound::Request)
    } else {
        None
    }
}

/// The sound that a message names.
pub fn sound_from_notify_message(message: &str) -> (r: Option<Sound>)
    ensures
        r == sound_of(message@),
{
    if same_text(message, "agent done") {
        Some(Sound::Done)
    } else if same_text(message, "agent attention") {
        Some(Sound::Request)
    } else {
        None
    }
}

/// How a notification is carried out.
#[derive(Debug, PartialEq, Eq)]
pub enum Notice {
    Nothing,
    Play(Sound),
    /// The terminal shows it.
    Terminal { title: String, body: Option<String> },
    /// The desktop shows it.
    System { title: String, body: Option<String> },
}

/// Decides how a notification is carried out. Toasts are shown as they are; a sound is played if it
/// is known and sounds are on.
pub fn handle_notify(kind: NotifyKind, message: String, body: Option<String>, sound_enabled: bool) -> (r:
    Notice)
    ensures
        r == (match kind {
            NotifyKind::Sound => match sound_of(message@) {
                Some(sound) if sound_enabled => Notice::Play(sound),
                _ => Notice::Nothing,
            },
            NotifyKind::Toast => Notice::Terminal { title: message, body },
            NotifyKind::SystemToast => Notice::System { title: message, body },
        }),
{
    match kind {
        NotifyKind::Sound => match sound_from_notify_message(message.as_str()) {
            Some(sound) => if sound_enabled {
                Notice::Play(sound)
            } else {
                Notice::Nothing
            },
            None => Notice::Nothing,
        },
        NotifyKind::Toast => Notice::Terminal { title: message, body },
        NotifyKind::SystemToast => Notice::System { title: message, body },
    }
}

/// Why a member refused, in words.
pub open spec fn rejection_words(rejection: Rejection) -> Seq<char> {
    match rejection {
        Rejection::Given(text) => text@,
        Rejection::Identity { member_id, server_id, session_id } => "receiver identity was "@
            + member_id@ + "/"@ + server_id@ + "/"@ + session_id@,
        Rejection::Member { member_id } => "member "@ + member_id@ + " rejected activation"@,
    }
}

/// The title and the text of a notification of the client's own.
pub open spec fn toast_words(toast: Toast) -> (Seq<char>, Seq<char>) {
    match toast {
        Toast::ActivationRejected { endpoint_id, detail } => (
            "Federated member rejected activation"@,
            match endpoint_id {
                Some(id) => id@ + ": "@ + rejection_words(detail),
                None => rejection_words(detail),
            },
        ),
        Toast::PendingDisconnected => (
            "Federated member disconnected"@,
            "The current Herdr connection remains active."@,
        ),
        Toast::PendingTimedOut => (
            "Federated member timed out"@,
            "The current Herdr connection remains active."@,
        ),
        Toast::MemberDisconnected => (
            "Herdr member disconnected"@,
            "Activating a retained member without restarting the client."@,
        ),
        Toast::RemoteDisconnected => (
            "Remote Herdr disconnected"@,
            "Activating a retained member without restarting the client."@,
        ),
        Toast::RemoteChanged => (
            "Remote Herdr connection changed"@,
            "Returning to the previous Herdr connection without restarting the client."@,
        ),
        Toast::Untrusted => (
            "Untrusted federation destination"@,
            "The selected member is not present in the pinned home directory."@,
        ),
        Toast::Unavailable => (
            "Federated member unavailable"@,
            "The home directory has no verified runtime identity for this member."@,
        ),
        Toast::Stale => (
            "Stale federated resource"@,
            "Refresh the home directory before retrying this selection."@,
        ),
        Toast::InProgress => (
            "Federation switch already in progress"@,
            "Wait for the selected member to accept or reject activation."@,
        ),
        Toast::CouldNotOpen { endpoint_id, error } => (
            "Could not open remote Herdr"@,
            endpoint_id@ + ": "@ + error@ + ". The current Herdr connection is still active."@,
        ),
    }
}

fn rejection_text(rejection: &Rejection) -> (r: String)
    ensures
        r@ == rejection_words(*rejection),
{
    match rejection {
        Rejection::Given(text) => text.clone(),
        Rejection::Identity { member_id, server_id, session_id } => {
            let mut text = "receiver identity was ".to_owned();
            text.append(member_id.as_str());
            text.append("/");
            text.append(server_id.as_str());
            text.append("/");
            text.append(session_id.as_str());
            text
        },
        Rejection::Member { member_id } => {
            let mut text = "member ".to_owned();
            text.append(member_id.as_str());
            text.append(" rejected activation");
            text
        },
    }
}

/// The title and the text of a notification of the client's own.
pub fn toast_text(toast: &Toast) -> (r: (String, String))
    ensures
        (r.0@, r.1@) == toast_words(*toast),
{
    let (title, body) = match toast {
        Toast::ActivationRejected { endpoint_id, detail } => {
            let detail = rejection_text(detail);
            let body = match endpoint_id {
                Some(id) => {
                    let mut text = id.clone();
                    text.append(": ");
                    text.append(detail.as_str());
                    text
                },
                None => detail,
            };
            return ("Federated member rejected activation".to_owned(), body);
        },
        Toast::CouldNotOpen { endpoint_id, error } => {
            let mut text = endpoint_id.clone();
            text.append(": ");
            text.append(error.as_str());
            text.append(". The current Herdr connection is still active.");
            return ("Could not open remote Herdr".to_owned(), text);
        },
        Toast::PendingDisconnected => (
            "Federated member disconnected",
            "The current Herdr connection remains active.",
        ),
        Toast::PendingTimedOut => (
            "Federated member timed out",
            "The current Herdr connection remains active.",
        ),
        Toast::MemberDisconnected => (
            "Herdr member disconnected",
            "Activating a retained member without restarting the client.",
        ),
        Toast::RemoteDisconnected => (
            "Remote Herdr disconnected",
            "Activating a retained member without restarting the client.",
        ),
        Toast::RemoteChanged => (
            "Remote Herdr connection changed",
            "Returning to the previous Herdr connection without restarting the client.",
        ),
        Toast::Untrusted => (
            "Untrusted federation destination",
            "The selected member is not present in the pinned home directory.",
        ),
        Toast::Unavailable => (
            "Federated member unavailable",
            "The home directory has no verified runtime identity for this member.",
        ),
        Toast::Stale => (
            "Stale federated resource",
            "Refresh the home directory before retrying this selection.",
        ),
        Toast::InProgress => (
            "Federation switch already in progress",
            "Wait for the selected member to accept or reject activation.",
        ),
    };
    (title.to_owned(), body.to_owned())
}

/// What the client takes from its configuration while it runs.
#[derive(Debug, PartialEq, Eq)]
pub struct ClientSettings {
    pub sound_enabled: bool,
    pub redraw_on_focus_gained: bool,
    pub draw_host_cursor: bool,
    pub remote_image_paste_key: Option<String>,
}

/// The key that pastes images: only a client whose server is elsewhere has one. `configured` is what
/// the configuration says, or what is wrong with it.
pub fn client_remote_image_paste_key(
    is_remote_client: bool,
    configured: Result<Option<String>, String>,
) -> (r: Option<String>)
    ensures
        r == (match configured {
            Ok(key) if is_remote_client => key,
            _ => None,
        }),
{
    match configured {
        Ok(key) => if is_remote_client {
            key
        } else {
            None
        },
        Err(_) => None,
    }
}

/// Takes a configuration that was read again. One that could not be read changes nothing.
pub fn reload_local_client_config(settings: &mut ClientSettings, loaded: Option<ClientSettings>)
    ensures
        *final(settings) == (match loaded {
            Some(read) => read,
            None => *old(settings),
        }),
{
    if let Some(read) = loaded {
        *settings = read;
    }
}

/// A refused activation is told with the member it is about and with the reason that it gave.
pub proof fn refusals_name_the_member(id: String, reason: String, member_id: String)
    ensures
        toast_words(
            Toast::ActivationRejected { endpoint_id: Some(id), detail: Rejection::Given(reason) },
        ).1 == id@ + ": "@ + reason@,
        toast_words(
            Toast::ActivationRejected { endpoint_id: None, detail: Rejection::Given(reason) },
        ).1 == reason@,
        toast_words(
            Toast::ActivationRejected { endpoint_id: None, detail: Rejection::Member { member_id } },
        ).1 == "member "@ + member_id@ + " rejected activation"@,
        (id@ + ": "@ + reason@).is_prefix_of(
            toast_words(Toast::CouldNotOpen { endpoint_id: id, error: reason }).1,
        ),
{
    let words = toast_words(Toast::CouldNotOpen { endpoint_id: id, error: reason }).1;
    assert(words =~= (id@ + ": "@ + reason@) + ". The current Herdr connection is still active."@);
}

/// Just the two messages of an agent have a sound: one that is done, and one that asks for attention.
pub proof fn sounds_tell_agents_apart(message: Seq<char>)
    ensures
        sound_of("agent done"@) == Some(Sound::Done),
        sound_of("agent attention"@) == Some(Sound::Request),
        sound_of(message) is Some ==> message == "agent done"@ || message == "agent attention"@,
{
    reveal_strlit("agent done");
    reveal_strlit("agent attention");
    assert("agent done"@.len() != "agent attention"@.len());
}

} // verus!
