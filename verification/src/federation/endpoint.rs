//! Endpoints: their configuration, what is known of each, and the watch that keeps it current.

use crate::schema::{same_option, RuntimeIdentity, SessionSnapshot, Snapshot};
use crate::text::{
    char_is_whitespace, chars_of, decimal, find_pattern, is_core, lemma_trimmed, opt_text, pattern_from,
    push_decimal, same_text, trim, trimmed, views,
};
use vstd::prelude::*;

verus! {

/// The time to wait for an SSH connection, in seconds.
pub const CONNECT_TIMEOUT_SECONDS: u64 = 10;

/// The first wait before a reconnect, in seconds.
pub const FIRST_BACKOFF_SECONDS: u64 = 1;

/// The longest wait before a reconnect, in seconds.
pub const LAST_BACKOFF_SECONDS: u64 = 30;

/// An endpoint as it is configured.
#[derive(Debug, PartialEq, Eq)]
pub struct FederationEndpointConfig {
    pub id: String,
    pub target: String,
    pub label: Option<String>,
    pub session: String,
    pub enabled: bool,
}

impl Clone for FederationEndpointConfig {
    fn clone(&self) -> (r: Self)
        ensures
            r == *self,
    {
        FederationEndpointConfig {
            id: self.id.clone(),
            target: self.target.clone(),
            label: same_option(&self.label),
            session: self.session.clone(),
            enabled: self.enabled,
        }
    }
}

/// The configured federation.
#[derive(Debug, PartialEq, Eq)]
pub struct FederationConfig {
    pub enabled: bool,
    pub endpoints: Vec<FederationEndpointConfig>,
}

#[derive(Debug, Clone, Copy, PartialEq, Eq, Structural)]
pub enum FederatedResourceKind {
    Workspace,
    Tab,
    Pane,
    Terminal,
    Agent,
    ArchivedAgent,
}

/// A resource of an endpoint, qualified by the runtime it belongs to.
#[derive(Debug, PartialEq, Eq)]
pub struct FederatedResourceRef {
    pub endpoint_id: String,
    pub server_id: String,
    pub session_id: String,
    pub kind: FederatedResourceKind,
    pub resource_id: String,
}

impl Clone for FederatedResourceRef {
    fn clone(&self) -> (r: Self)
        ensures
            r == *self,
    {
        FederatedResourceRef {
            endpoint_id: self.endpoint_id.clone(),
            server_id: self.server_id.clone(),
            session_id: self.session_id.clone(),
            kind: self.kind,
            resource_id: self.resource_id.clone(),
        }
    }
}

#[derive(Debug, Clone, Copy, PartialEq, Eq, Structural)]
pub enum EndpointConnectionStatus {
    Disabled,
    Connecting,
    Connected,
    Disconnected,
    Incompatible,
}

/// What is known of an endpoint.
#[derive(Debug, PartialEq, Eq)]
pub struct EndpointState {
    pub endpoint: FederationEndpointConfig,
    pub status: EndpointConnectionStatus,
    pub snapshot: Option<SessionSnapshot>,
    /// The latest event that the snapshot holds.
    pub cursor: Option<u64>,
    pub error: Option<String>,
}

/// What is known of an endpoint, with its texts and lists as sequences.
#[verifier::ext_equal]
pub struct Endpoint {
    pub endpoint: FederationEndpointConfig,
    pub status: EndpointConnectionStatus,
    pub snapshot: Option<Snapshot>,
    pub cursor: Option<u64>,
    pub error: Option<Seq<char>>,
}

pub open spec fn opt_snapshot(s: Option<SessionSnapshot>) -> Option<Snapshot> {
    match s {
        Some(snapshot) => Some(snapshot@),
        None => None,
    }
}

impl View for EndpointState {
    type V = Endpoint;

    open spec fn view(&self) -> Endpoint {
        Endpoint {
            endpoint: self.endpoint,
            status: self.status,
            snapshot: opt_snapshot(self.snapshot),
            cursor: self.cursor,
            error: opt_text(self.error),
        }
    }
}

/// A copy of an optional snapshot.
pub fn duplicate_option(s: &Option<SessionSnapshot>) -> (r: Option<SessionSnapshot>)
    ensures
        opt_snapshot(r) == opt_snapshot(*s),
{
    match s {
        Some(snapshot) => Some(snapshot.duplicate()),
        None => None,
    }
}

/// An endpoint before anything is known of it.
pub open spec fn unconnected(endpoint: FederationEndpointConfig) -> Endpoint {
    Endpoint {
        endpoint,
        status: if endpoint.enabled {
            EndpointConnectionStatus::Disconnected
        } else {
            EndpointConnectionStatus::Disabled
        },
        snapshot: None,
        cursor: None,
        error: None,
    }
}

impl EndpointState {
    /// A copy of the state.
    pub fn duplicate(&self) -> (r: Self)
        ensures
            r@ == self@,
    {
        EndpointState {
            endpoint: self.endpoint.clone(),
            status: self.status,
            snapshot: duplicate_option(&self.snapshot),
            cursor: self.cursor,
            error: same_option(&self.error),
        }
    }

    /// The state of an endpoint that is only configured.
    pub fn configured(endpoint: FederationEndpointConfig) -> (r: Self)
        ensures
            r@ == unconnected(endpoint),
    {
        let status = if endpoint.enabled {
            EndpointConnectionStatus::Disconnected
        } else {
            EndpointConnectionStatus::Disabled
        };
        EndpointState { endpoint, status, snapshot: None, cursor: None, error: None }
    }

    /// A reference to a resource of the endpoint; none before its runtime is known.
    pub fn resource_ref(&self, kind: FederatedResourceKind, resource_id: String) -> (r: Option<
        FederatedResourceRef,
    >)
        ensures
            r == match self@.snapshot {
                Some(snapshot) => Some(
                    FederatedResourceRef {
                        endpoint_id: self.endpoint.id,
                        server_id: snapshot.identity.server_id,
                        session_id: snapshot.identity.session_id,
                        kind,
                        resource_id,
                    },
                ),
                None => None,
            },
    {
        match &self.snapshot {
            Some(snapshot) => Some(
                FederatedResourceRef {
                    endpoint_id: self.endpoint.id.clone(),
                    server_id: snapshot.identity.server_id.clone(),
                    session_id: snapshot.identity.session_id.clone(),
                    kind,
                    resource_id,
                },
            ),
            None => None,
        }
    }
}

/// The states of the configured endpoints, in order.
pub fn configured_states(config: &FederationConfig) -> (r: Vec<EndpointState>)
    ensures
        r@.len() == config.endpoints@.len(),
        forall|i: int|
            0 <= i < r@.len() ==> (#[trigger] r@[i])@ == unconnected(config.endpoints@[i]),
{
    let mut out: Vec<EndpointState> = Vec::new();
    let mut i: usize = 0;
    while i < config.endpoints.len()
        invariant
            i <= config.endpoints@.len(),
            out@.len() == i,
            forall|k: int|
                0 <= k < i ==> (#[trigger] out@[k])@ == unconnected(config.endpoints@[k]),
        decreases config.endpoints@.len() - i,
    {
        out.push(EndpointState::configured(config.endpoints[i].clone()));
        i += 1;
    }
    out
}

pub open spec fn mentions(message: Seq<char>, words: Seq<char>) -> bool {
    pattern_from(message, 0, words) is Some
}

/// The status that an error of a watch leaves an endpoint in: one that cannot be watched at all is
/// told apart from one that may come back.
pub open spec fn error_status(message: Seq<char>) -> EndpointConnectionStatus {
    if mentions(message, "session.watch"@) || mentions(message, "does not support federation"@) {
        EndpointConnectionStatus::Incompatible
    } else {
        EndpointConnectionStatus::Disconnected
    }
}

fn contains_words(message: &str, words: &str) -> (r: bool)
    ensures
        r == mentions(message@, words@),
{
    let text = chars_of(message);
    let pattern = chars_of(words);
    find_pattern(text.as_slice(), 0, pattern.as_slice()).is_some()
}

/// The status that a watch's error message stands for.
pub fn classify_error(message: &str) -> (r: EndpointConnectionStatus)
    ensures
        r == error_status(message@),
{
    if contains_words(message, "session.watch") || contains_words(
        message,
        "does not support federation",
    ) {
        EndpointConnectionStatus::Incompatible
    } else {
        EndpointConnectionStatus::Disconnected
    }
}

/// What is wrong with a snapshot of another member.
pub open spec fn wrong_member(endpoint: FederationEndpointConfig, identity: RuntimeIdentity) -> Seq<
    char,
> {
    "endpoint "@ + endpoint.id@ + " reported federation member "@ + identity.member_id@
}

/// Whether a snapshot comes from the member that the endpoint stands for.
pub fn validate_snapshot_member(endpoint: &FederationEndpointConfig, snapshot: &SessionSnapshot) -> (r:
    Result<(), String>)
    ensures
        match r {
            Ok(_) => snapshot.identity.member_id@ == endpoint.id@,
            Err(message) => snapshot.identity.member_id@ != endpoint.id@ && message@
                == wrong_member(*endpoint, snapshot.identity),
        },
{
    if same_text(snapshot.identity.member_id.as_str(), endpoint.id.as_str()) {
        return Ok(());
    }
    let mut message = "endpoint ".to_owned();
    message.append(endpoint.id.as_str());
    message.append(" reported federation member ");
    message.append(snapshot.identity.member_id.as_str());
    Err(message)
}

/// Texts with a separator between them.
pub open spec fn joined(parts: Seq<Seq<char>>, separator: Seq<char>) -> Seq<char>
    decreases parts.len(),
{
    if parts.len() == 0 {
        Seq::empty()
    } else if parts.len() == 1 {
        parts[0]
    } else {
        joined(parts.drop_last(), separator) + separator + parts.last()
    }
}

/// A character that a session's name may have: one that a shell takes as it is.
pub open spec fn plain_session_char(c: char) -> bool {
    ||| 'a' as int <= c as int <= 'z' as int
    ||| 'A' as int <= c as int <= 'Z' as int
    ||| '0' as int <= c as int <= '9' as int
    ||| c == '-' || c == '_' || c == '.'
}

/// A session's name that a shell takes as it is.
pub open spec fn plain_session(session: Seq<char>) -> bool {
    session.len() > 0 && forall|i: int|
        0 <= i < session.len() ==> plain_session_char(#[trigger] session[i])
}

/// A target that SSH takes for a host rather than for an option.
pub open spec fn usable_target(target: Seq<char>) -> bool {
    target.len() > 0 && target[0] != '-'
}

/// What is wrong with an endpoint: an id that is missing, a target that SSH would not take for a
/// host, a session that a shell would not take as it is. These rules for ids, targets and session
/// names are this crate's own, and so are the texts.
pub open spec fn faults(endpoint: FederationEndpointConfig) -> Seq<Seq<char>> {
    let named = "federation endpoint "@ + endpoint.id@;
    let id = if endpoint.id@.len() == 0 {
        seq!["federation endpoint has no id"@]
    } else {
        Seq::empty()
    };
    let target = if usable_target(endpoint.target@) {
        Seq::empty()
    } else {
        seq![named + ": invalid ssh target "@ + endpoint.target@]
    };
    let session = if plain_session(endpoint.session@) {
        Seq::empty()
    } else {
        seq![named + ": invalid session "@ + endpoint.session@]
    };
    id + target + session
}

fn is_plain_session(session: &str) -> (r: bool)
    ensures
        r == plain_session(session@),
{
    let chars = chars_of(session);
    let mut i: usize = 0;
    while i < chars.len()
        invariant
            chars@ == session@,
            i <= chars@.len(),
            forall|k: int| 0 <= k < i ==> plain_session_char(#[trigger] session@[k]),
        decreases chars@.len() - i,
    {
        let c = chars[i];
        let plain = ('a' <= c && c <= 'z') || ('A' <= c && c <= 'Z') || ('0' <= c && c <= '9') || c
            == '-' || c == '_' || c == '.';
        assert(plain == plain_session_char(session@[i as int]));
        if !plain {
            return false;
        }
        i += 1;
    }
    chars.len() > 0
}

fn is_usable_target(target: &str) -> (r: bool)
    ensures
        r == usable_target(target@),
{
    let chars = chars_of(target);
    chars.len() > 0 && chars[0] != '-'
}

fn fault(endpoint: &FederationEndpointConfig, what: &str, value: &str) -> (r: String)
    ensures
        r@ == "federation endpoint "@ + endpoint.id@ + what@ + value@,
{
    let mut text = "federation endpoint ".to_owned();
    text.append(endpoint.id.as_str());
    text.append(what);
    text.append(value);
    text
}

/// What is wrong with an endpoint, by this crate's own rules for ids, targets and session names.
/// One whose target begins with a hyphen always has a fault.
pub fn endpoint_diagnostics(endpoint: &FederationEndpointConfig) -> (r: Vec<String>)
    ensures
        views(r@) == faults(*endpoint),
        r@.len() > 0 <==> endpoint.id@.len() == 0 || !usable_target(endpoint.target@)
            || !plain_session(endpoint.session@),
{
    let mut out: Vec<String> = Vec::new();
    if endpoint.id.as_str().is_empty() {
        out.push("federation endpoint has no id".to_owned());
    }
    if !is_usable_target(endpoint.target.as_str()) {
        out.push(fault(endpoint, ": invalid ssh target ", endpoint.target.as_str()));
    }
    if !is_plain_session(endpoint.session.as_str()) {
        out.push(fault(endpoint, ": invalid session ", endpoint.session.as_str()));
    }
    assert(views(out@) =~= faults(*endpoint));
    out
}

/// Whether an endpoint can be used, by what the configuration has to say about it.
pub fn validate_endpoint(diagnostics: &Vec<String>) -> (r: Result<(), String>)
    ensures
        match r {
            Ok(_) => diagnostics@.len() == 0,
            Err(message) => diagnostics@.len() > 0 && message@ == joined(
                views(diagnostics@),
                "; "@,
            ),
        },
{
    if diagnostics.len() == 0 {
        return Ok(());
    }
    let ghost all = views(diagnostics@);
    let mut message = diagnostics[0].clone();
    let mut i: usize = 1;
    assert(all.take(1)[0] == all[0]);
    while i < diagnostics.len()
        invariant
            1 <= i <= diagnostics@.len(),
            all == views(diagnostics@),
            message@ == joined(all.take(i as int), "; "@),
        decreases diagnostics@.len() - i,
    {
        assert(all.take(i + 1).drop_last() =~= all.take(i as int));
        message.append("; ");
        message.append(diagnostics[i].as_str());
        i += 1;
    }
    assert(all.take(i as int) =~= all);
    Err(message)
}

/// The command that starts the bridge on the other machine.
pub open spec fn bridge_command(session: Seq<char>) -> Seq<char> {
    "if command -v herdr >/dev/null 2>&1; then exec herdr --session "@ + session
        + " federation bridge; elif [ -x \"$HOME/.local/bin/herdr\" ]; then exec \"$HOME/.local/bin/herdr\" --session "@
        + session
        + " federation bridge; else echo 'herdr executable not found' >&2; exit 127; fi"@
}

/// The command that starts the bridge of a session on the other machine.
pub fn remote_bridge_command(session: &str) -> (r: String)
    ensures
        r@ == bridge_command(session@),
{
    let mut out = "if command -v herdr >/dev/null 2>&1; then exec herdr --session ".to_owned();
    out.append(session);
    out.append(
        " federation bridge; elif [ -x \"$HOME/.local/bin/herdr\" ]; then exec \"$HOME/.local/bin/herdr\" --session ",
    );
    out.append(session);
    out.append(" federation bridge; else echo 'herdr executable not found' >&2; exit 127; fi");
    out
}

/// The arguments of SSH for an endpoint: no terminal, no shared connection, no questions, and an
/// early end of a dead connection.
pub open spec fn ssh_arguments(endpoint: FederationEndpointConfig) -> Seq<Seq<char>> {
    seq![
        "-T"@,
        "-o"@,
        "ControlMaster=no"@,
        "-o"@,
        "ControlPath=none"@,
        "-o"@,
        "BatchMode=yes"@,
        "-o"@,
        "ConnectTimeout="@ + decimal(CONNECT_TIMEOUT_SECONDS as nat),
        "-o"@,
        "ServerAliveInterval=15"@,
        "-o"@,
        "ServerAliveCountMax=3"@,
        endpoint.target@,
        bridge_command(endpoint.session@),
    ]
}

/// The arguments of SSH that run the bridge of an endpoint.
pub fn ssh_bridge_args(endpoint: &FederationEndpointConfig) -> (r: Vec<String>)
    ensures
        views(r@) == ssh_arguments(*endpoint),
{
    let mut timeout = "ConnectTimeout=".to_owned();
    push_decimal(&mut timeout, CONNECT_TIMEOUT_SECONDS);
    let args: Vec<String> = vec![
        "-T".to_owned(),
        "-o".to_owned(),
        "ControlMaster=no".to_owned(),
        "-o".to_owned(),
        "ControlPath=none".to_owned(),
        "-o".to_owned(),
        "BatchMode=yes".to_owned(),
        "-o".to_owned(),
        timeout,
        "-o".to_owned(),
        "ServerAliveInterval=15".to_owned(),
        "-o".to_owned(),
        "ServerAliveCountMax=3".to_owned(),
        endpoint.target.clone(),
        remote_bridge_command(endpoint.session.as_str()),
    ];
    assert(views(args@) =~= ssh_arguments(*endpoint));
    args
}

/// What a failed stream is reported as: what the bridge printed comes behind the error itself.
pub open spec fn stream_error(
    id: Seq<char>,
    context: Seq<char>,
    source: Seq<char>,
    stderr: Seq<char>,
) -> Seq<char> {
    "endpoint "@ + id + " "@ + context + ": "@ + (if trimmed(stderr).len() == 0 {
        source
    } else {
        source + ": "@ + trimmed(stderr)
    })
}

/// The message for a failed stream of an endpoint.
pub fn endpoint_stream_error(
    endpoint: &FederationEndpointConfig,
    context: &str,
    source: &str,
    stderr: &str,
) -> (r: String)
    ensures
        r@ == stream_error(endpoint.id@, context@, source@, stderr@),
{
    let printed = trim(stderr);
    let mut out = "endpoint ".to_owned();
    out.append(endpoint.id.as_str());
    out.append(" ");
    out.append(context);
    out.append(": ");
    if printed.as_str().is_empty() {
        out.append(source);
        assert(out@ =~= stream_error(endpoint.id@, context@, source@, stderr@));
    } else {
        out.append(source);
        out.append(": ");
        out.append(printed.as_str());
        assert(out@ =~= stream_error(endpoint.id@, context@, source@, stderr@));
    }
    out
}

/// Whether the stream of events ended because the bridge failed: what it printed then.
pub fn stream_end(stderr: &str) -> (r: Option<String>)
    ensures
        match r {
            Some(message) => trimmed(stderr@).len() > 0 && message@ == trimmed(stderr@),
            None => trimmed(stderr@).len() == 0,
        },
{
    let printed = trim(stderr);
    if printed.as_str().is_empty() {
        None
    } else {
        Some(printed)
    }
}

/// An endpoint is without fault exactly when it has an id, a target that is no option, and a session
/// name of letters, digits, hyphens, underscores and dots.
pub proof fn faultless_endpoints_can_be_reached(endpoint: FederationEndpointConfig)
    ensures
        faults(endpoint).len() == 0 <==> {
            &&& endpoint.id@.len() > 0
            &&& endpoint.target@.len() > 0 && endpoint.target@[0] != '-'
            &&& endpoint.session@.len() > 0
            &&& forall|i: int|
                #![trigger endpoint.session@[i]]
                0 <= i < endpoint.session@.len() ==> {
                    let c = endpoint.session@[i];
                    ||| 'a' as int <= c as int <= 'z' as int
                    ||| 'A' as int <= c as int <= 'Z' as int
                    ||| '0' as int <= c as int <= '9' as int
                    ||| c == '-' || c == '_' || c == '.'
                }
        },
        faults(endpoint).len() <= 3,
{
    let s = endpoint.session@;
    assert forall|i: int|
        #![trigger s[i]]
        0 <= i < s.len() && plain_session(s) implies plain_session_char(s[i]) by {
    }
}

/// What SSH is asked to do ends in the endpoint's target and the command that runs the bridge of its
/// session, once if Herdr is found and once if it is found at home.
pub proof fn bridges_run_the_session(endpoint: FederationEndpointConfig)
    ensures
        ({
            let args = ssh_arguments(endpoint);
            let command = args[args.len() - 1];
            let s = endpoint.session@;
            &&& args.len() >= 2
            &&& args[0] == "-T"@
            &&& args[args.len() - 2] == endpoint.target@
            &&& args.contains("BatchMode=yes"@)
            &&& exists|a: Seq<char>, b: Seq<char>, c: Seq<char>|
                command == #[trigger] (a + " --session "@ + s + " federation bridge; "@ + b
                    + " --session "@ + s + " federation bridge; "@ + c)
        }),
{
    let args = ssh_arguments(endpoint);
    assert(args[6] == "BatchMode=yes"@);
    let s = endpoint.session@;
    reveal_strlit("if command -v herdr >/dev/null 2>&1; then exec herdr --session ");
    reveal_strlit("if command -v herdr >/dev/null 2>&1; then exec herdr");
    reveal_strlit(
        " federation bridge; elif [ -x \"$HOME/.local/bin/herdr\" ]; then exec \"$HOME/.local/bin/herdr\" --session ",
    );
    reveal_strlit("elif [ -x \"$HOME/.local/bin/herdr\" ]; then exec \"$HOME/.local/bin/herdr\"");
    reveal_strlit(" federation bridge; else echo 'herdr executable not found' >&2; exit 127; fi");
    reveal_strlit("else echo 'herdr executable not found' >&2; exit 127; fi");
    reveal_strlit(" --session ");
    reveal_strlit(" federation bridge; ");
    let a = "if command -v herdr >/dev/null 2>&1; then exec herdr"@;
    let b = "elif [ -x \"$HOME/.local/bin/herdr\" ]; then exec \"$HOME/.local/bin/herdr\""@;
    let c = "else echo 'herdr executable not found' >&2; exit 127; fi"@;
    assert("if command -v herdr >/dev/null 2>&1; then exec herdr --session "@ =~= a + " --session "@);
    assert(" federation bridge; elif [ -x \"$HOME/.local/bin/herdr\" ]; then exec \"$HOME/.local/bin/herdr\" --session "@
        =~= " federation bridge; "@ + b + " --session "@);
    assert(" federation bridge; else echo 'herdr executable not found' >&2; exit 127; fi"@
        =~= " federation bridge; "@ + c);
    assert(bridge_command(s) =~= a + " --session "@ + s + " federation bridge; "@ + b
        + " --session "@ + s + " federation bridge; "@ + c);
}

/// A failed stream is reported with the endpoint, what was done and why it failed; what the bridge
/// printed stands behind that, without the blanks around it.
pub proof fn failures_say_what_was_printed(
    id: Seq<char>,
    context: Seq<char>,
    source: Seq<char>,
    stderr: Seq<char>,
)
    ensures
        ({
            let head = "endpoint "@ + id + " "@ + context + ": "@ + source;
            let message = stream_error(id, context, source, stderr);
            &&& head.is_prefix_of(message)
            &&& (forall|i: int| 0 <= i < stderr.len() ==> char_is_whitespace(#[trigger] stderr[i]))
                ==> message == head
            &&& (exists|i: int| 0 <= i < stderr.len() && !char_is_whitespace(#[trigger] stderr[i]))
                ==> exists|a: int, b: int| #[trigger]
                is_core(stderr, a, b) && a < b && message == head + ": "@ + stderr.subrange(a, b)
        }),
{
    lemma_trimmed(stderr);
    let (a, b) = choose|a: int, b: int| #[trigger]
        is_core(stderr, a, b) && trimmed(stderr) == stderr.subrange(a, b);
    let head = "endpoint "@ + id + " "@ + context + ": "@ + source;
    let message = stream_error(id, context, source, stderr);
    if a < b {
        assert(message =~= head + ": "@ + stderr.subrange(a, b));
        assert(!char_is_whitespace(stderr[a]));
    } else {
        assert(message =~= head);
        if exists|i: int| 0 <= i < stderr.len() && !char_is_whitespace(#[trigger] stderr[i]) {
            let i = choose|i: int|
                0 <= i < stderr.len() && !char_is_whitespace(#[trigger] stderr[i]);
            assert(i < a || b <= i);
        }
    }
}

} // verus!
