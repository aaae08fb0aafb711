//! The `herdr federation` commands.

use crate::federation::endpoint::{
    classify_error, error_status, unconnected, Endpoint, EndpointConnectionStatus, EndpointState,
    FederationConfig, FederationEndpointConfig,
};
use crate::federation::directory::endpoints;
use crate::search::first_hit;
use crate::text::{decimal, opt_text, push_decimal, same_text, views};
use crate::workspace_creation::{status_words, workspace_server_status};
use vstd::prelude::*;

verus! {

/// What a command line asks for.
#[derive(Debug, PartialEq, Eq)]
pub enum FederationCommand {
    Bridge,
    List { json: bool },
    Watch,
    Attach { endpoint_id: String, pane_id: Option<String> },
    /// The usage of one command is shown.
    ListUsage { code: i32 },
    WatchUsage,
    AttachUsage,
    /// The usage of all commands is shown.
    Help { code: i32 },
}

pub open spec fn asks_for_help(word: Seq<char>) -> bool {
    word == "help"@ || word == "--help"@ || word == "-h"@
}

/// A command, with its texts as sequences.
pub enum Command {
    Bridge,
    List { json: bool },
    Watch,
    Attach { endpoint_id: Seq<char>, pane_id: Option<Seq<char>> },
    ListUsage { code: int },
    WatchUsage,
    AttachUsage,
    Help { code: int },
}

impl View for FederationCommand {
    type V = Command;

    open spec fn view(&self) -> Command {
        match *self {
            FederationCommand::Bridge => Command::Bridge,
            FederationCommand::List { json } => Command::List { json },
            FederationCommand::Watch => Command::Watch,
            FederationCommand::Attach { endpoint_id, pane_id } => Command::Attach {
                endpoint_id: endpoint_id@,
                pane_id: opt_text(pane_id),
            },
            FederationCommand::ListUsage { code } => Command::ListUsage { code: code as int },
            FederationCommand::WatchUsage => Command::WatchUsage,
            FederationCommand::AttachUsage => Command::AttachUsage,
            FederationCommand::Help { code } => Command::Help { code: code as int },
        }
    }
}

/// What `list` or `status` with these arguments asks for.
pub open spec fn list_command(args: Seq<Seq<char>>) -> Command {
    if args.len() == 0 {
        Command::List { json: false }
    } else if args.len() == 1 && args[0] == "--json"@ {
        Command::List { json: true }
    } else if args.len() == 1 && asks_for_help(args[0]) {
        Command::ListUsage { code: 0 }
    } else {
        Command::ListUsage { code: 2 }
    }
}

/// What `attach` with these arguments asks for.
pub open spec fn attach_command(args: Seq<Seq<char>>) -> Command {
    if args.len() == 1 {
        Command::Attach { endpoint_id: args[0], pane_id: None }
    } else if args.len() == 3 && args[1] == "--pane"@ {
        Command::Attach { endpoint_id: args[0], pane_id: Some(args[2]) }
    } else {
        Command::AttachUsage
    }
}

/// What the words after `herdr federation` ask for.
pub open spec fn command_of(args: Seq<Seq<char>>) -> Command {
    if args.len() == 0 {
        Command::Help { code: 2 }
    } else if args[0] == "bridge"@ && args.len() == 1 {
        Command::Bridge
    } else if args[0] == "list"@ || args[0] == "status"@ {
        list_command(args.skip(1))
    } else if args[0] == "watch"@ {
        if args.len() == 1 {
            Command::Watch
        } else {
            Command::WatchUsage
        }
    } else if args[0] == "attach"@ {
        attach_command(args.skip(1))
    } else if asks_for_help(args[0]) {
        Command::Help { code: 0 }
    } else {
        Command::Help { code: 2 }
    }
}

fn is_help(word: &str) -> (r: bool)
    ensures
        r == asks_for_help(word@),
{
    same_text(word, "help") || same_text(word, "--help") || same_text(word, "-h")
}

/// Reads the words after `herdr federation`.
pub fn run_federation_command(args: &Vec<String>) -> (r: FederationCommand)
    ensures
        r@ == command_of(views(args@)),
{
    let ghost words = views(args@);
    proof {
        reveal_strlit("bridge");
        reveal_strlit("list");
        reveal_strlit("status");
        reveal_strlit("watch");
        reveal_strlit("attach");
        assert("bridge"@[0] == 'b' && "list"@[0] == 'l' && "status"@[0] == 's' && "watch"@[0] == 'w'
            && "attach"@[0] == 'a');
    }
    if args.len() == 0 {
        return FederationCommand::Help { code: 2 };
    }
    let first = args[0].as_str();
    if same_text(first, "bridge") && args.len() == 1 {
        FederationCommand::Bridge
    } else if same_text(first, "list") || same_text(first, "status") {
        if args.len() == 1 {
            FederationCommand::List { json: false }
        } else if args.len() == 2 && same_text(args[1].as_str(), "--json") {
            FederationCommand::List { json: true }
        } else if args.len() == 2 && is_help(args[1].as_str()) {
            FederationCommand::ListUsage { code: 0 }
        } else {
            FederationCommand::ListUsage { code: 2 }
        }
    } else if same_text(first, "watch") {
        if args.len() == 1 {
            FederationCommand::Watch
        } else {
            FederationCommand::WatchUsage
        }
    } else if same_text(first, "attach") {
        if args.len() == 2 {
            FederationCommand::Attach { endpoint_id: args[1].clone(), pane_id: None }
        } else if args.len() == 4 && same_text(args[2].as_str(), "--pane") {
            FederationCommand::Attach {
                endpoint_id: args[1].clone(),
                pane_id: Some(args[3].clone()),
            }
        } else {
            FederationCommand::AttachUsage
        }
    } else if is_help(first) {
        FederationCommand::Help { code: 0 }
    } else {
        FederationCommand::Help { code: 2 }
    }
}

/// How a state reads: its label and id, its status and, once a snapshot is known, its size.
pub open spec fn state_line(state: Endpoint) -> Seq<char> {
    let label = match state.endpoint.label {
        Some(label) => label@,
        None => state.endpoint.id@,
    };
    let counts = match state.snapshot {
        Some(snapshot) => " · "@ + decimal(snapshot.workspaces.len()) + " workspaces · "@
            + decimal(snapshot.panes.len()) + " panes"@,
        None => ""@,
    };
    label + " ("@ + state.endpoint.id@ + ")  "@ + status_words(state.status) + counts
}

/// The lines that show a state.
pub open spec fn state_lines(state: Endpoint) -> Seq<Seq<char>> {
    match state.error {
        Some(error) => seq![state_line(state), "  "@ + error],
        None => seq![state_line(state)],
    }
}

/// The lines that show a state.
pub fn print_human_state(state: &EndpointState) -> (r: Vec<String>)
    ensures
        views(r@) == state_lines(state@),
{
    let mut line = match &state.endpoint.label {
        Some(label) => label.clone(),
        None => state.endpoint.id.clone(),
    };
    let ghost label = line@;
    line.append(" (");
    line.append(state.endpoint.id.as_str());
    line.append(")  ");
    line.append(workspace_server_status(state.status));
    let ghost head = line@;
    match &state.snapshot {
        Some(snapshot) => {
            line.append(" · ");
            push_decimal(&mut line, snapshot.workspaces.len() as u64);
            line.append(" workspaces · ");
            push_decimal(&mut line, snapshot.panes.len() as u64);
            line.append(" panes");
            proof {
                let w = decimal(snapshot.workspaces@.len());
                let p = decimal(snapshot.panes@.len());
                assert(line@ =~= head + (" · "@ + w + " workspaces · "@ + p + " panes"@));
            }
        },
        None => {
            proof {
                reveal_strlit("");
                assert(line@ =~= head + ""@);
            }
        },
    }
    assert(line@ == state_line(state@));
    let mut lines: Vec<String> = Vec::new();
    lines.push(line);
    if let Some(error) = &state.error {
        let mut second = "  ".to_owned();
        second.append(error.as_str());
        lines.push(second);
    }
    assert(views(lines@) =~= state_lines(state@));
    lines
}

/// The lines that show states, one after the other.
pub open spec fn all_lines(states: Seq<Endpoint>) -> Seq<Seq<char>>
    decreases states.len(),
{
    if states.len() == 0 {
        Seq::empty()
    } else {
        all_lines(states.drop_last()) + state_lines(states.last())
    }
}

/// An enabled endpoint that is not connected.
pub open spec fn is_down(state: Endpoint) -> bool {
    state.endpoint.enabled && state.status != EndpointConnectionStatus::Connected
}

/// What `list` says of a federation that is disabled.
pub fn disabled_list(json: bool) -> (r: &'static str)
    ensures
        r@ == (if json {
            "[]"@
        } else {
            "federation is disabled"@
        }),
{
    if json {
        "[]"
    } else {
        "federation is disabled"
    }
}

/// What `list` shows of the states that came in, in order, and its exit code: an error if an
/// enabled endpoint is not connected.
pub fn list_report(states: &Vec<EndpointState>) -> (r: (Vec<String>, i32))
    ensures
        views(r.0@) == (if states@.len() == 0 {
            seq!["no federation endpoints configured"@]
        } else {
            all_lines(endpoints(states@))
        }),
        r.1 == (if exists|i: int| 0 <= i < states@.len() && is_down((#[trigger] states@[i])@) {
            1int
        } else {
            0
        }),
{
    let mut lines: Vec<String> = Vec::new();
    if states.len() == 0 {
        lines.push("no federation endpoints configured".to_owned());
        assert(views(lines@) =~= seq!["no federation endpoints configured"@]);
        return (lines, 0);
    }
    let mut code: i32 = 0;
    let mut i: usize = 0;
    let ghost all = endpoints(states@);
    assert(all.take(0) =~= Seq::<Endpoint>::empty());
    assert(views(lines@) =~= Seq::<Seq<char>>::empty());
    while i < states.len()
        invariant
            all == endpoints(states@),
            i <= states@.len(),
            views(lines@) == all_lines(all.take(i as int)),
            code == (if exists|k: int| 0 <= k < i && is_down((#[trigger] states@[k])@) {
                1int
            } else {
                0
            }),
        decreases states@.len() - i,
    {
        let mut more = print_human_state(&states[i]);
        let ghost before = views(lines@);
        let ghost added = views(more@);
        lines.append(&mut more);
        assert(views(lines@) =~= before + added);
        assert(all.take(i + 1).drop_last() =~= all.take(i as int));
        assert(all.take(i + 1).last() == states@[i as int]@);
        let ghost found = exists|k: int| 0 <= k < i && is_down((#[trigger] states@[k])@);
        if states[i].endpoint.enabled && states[i].status != EndpointConnectionStatus::Connected {
            code = 1;
            assert(is_down(states@[i as int]@));
        }
        i += 1;
    }
    assert(all.take(i as int) =~= all);
    (lines, code)
}

/// Why there is nothing to watch.
pub fn federation_watch(config: &FederationConfig) -> (r: Result<(), &'static str>)
    ensures
        match r {
            Ok(_) => config.enabled && config.endpoints@.len() > 0,
            Err(text) => if !config.enabled {
                text@ == "federation is disabled"@
            } else {
                config.endpoints@.len() == 0 && text@ == "no federation endpoints configured"@
            },
        },
{
    if !config.enabled {
        return Err("federation is disabled");
    }
    if config.endpoints.len() == 0 {
        return Err("no federation endpoints configured");
    }
    Ok(())
}

/// How an endpoint is attached to.
#[derive(Debug, PartialEq, Eq)]
pub struct AttachPlan {
    pub endpoint: FederationEndpointConfig,
    /// The request that focuses a pane first: its id, and the pane.
    pub focus: Option<(String, String)>,
    /// The arguments that herdr is started with.
    pub args: Vec<String>,
}

pub open spec fn endpoint_named(id: Seq<char>) -> spec_fn(FederationEndpointConfig) -> bool {
    |endpoint: FederationEndpointConfig| endpoint.id@ == id
}

/// Decides how `attach` reaches an endpoint.
pub fn federation_attach(config: &FederationConfig, endpoint_id: &str, pane_id: &Option<String>) -> (r:
    Result<AttachPlan, String>)
    ensures
        ({
            let at = first_hit(config.endpoints@, endpoint_named(endpoint_id@), 0);
            let endpoint = config.endpoints@[at];
            if at == config.endpoints@.len() {
                r matches Err(text) && text@ == "unknown federation endpoint: "@ + endpoint_id@
            } else if !endpoint.enabled {
                r matches Err(text) && text@ == "federation endpoint "@ + endpoint_id@
                    + " is disabled"@
            } else {
                &&& r matches Ok(plan)
                &&& plan.endpoint == endpoint
                &&& match *pane_id {
                    Some(pane) => plan.focus matches Some((id, focused)) && id@ == "federation:"@
                        + endpoint_id@ + ":focus"@ && focused == pane,
                    None => plan.focus is None,
                }
                &&& views(plan.args@) == seq![
                    "--remote"@,
                    endpoint.target@,
                    "--session"@,
                    endpoint.session@,
                ]
            }
        }),
{
    let mut at: usize = 0;
    while at < config.endpoints.len() && !same_text(config.endpoints[at].id.as_str(), endpoint_id)
        invariant
            at <= config.endpoints@.len(),
            first_hit(config.endpoints@, endpoint_named(endpoint_id@), 0) == first_hit(
                config.endpoints@,
                endpoint_named(endpoint_id@),
                at as int,
            ),
        decreases config.endpoints@.len() - at,
    {
        at += 1;
    }
    if at == config.endpoints.len() {
        let mut text = "unknown federation endpoint: ".to_owned();
        text.append(endpoint_id);
        return Err(text);
    }
    let endpoint = &config.endpoints[at];
    if !endpoint.enabled {
        let mut text = "federation endpoint ".to_owned();
        text.append(endpoint_id);
        text.append(" is disabled");
        return Err(text);
    }
    let focus = match pane_id {
        Some(pane) => {
            let mut id = "federation:".to_owned();
            id.append(endpoint_id);
            id.append(":focus");
            Some((id, pane.clone()))
        },
        None => None,
    };
    let mut args: Vec<String> = Vec::new();
    args.push("--remote".to_owned());
    args.push(endpoint.target.clone());
    args.push("--session".to_owned());
    args.push(endpoint.session.clone());
    assert(views(args@) =~= seq![
        "--remote"@,
        endpoint.target@,
        "--session"@,
        endpoint.session@,
    ]);
    Ok(AttachPlan { endpoint: endpoint.clone(), focus, args })
}

/// The exit code of a program that was started: its own, or an error where a signal ended it.
pub fn child_exit_code(code: Option<i32>) -> (r: i32)
    ensures
        r == (match code {
            Some(own) => own,
            None => 1,
        }),
{
    match code {
        Some(own) => own,
        None => 1,
    }
}

/// What a probe of an endpoint found: `watched` is the state of a watch that connected, or why none
/// did. A disabled endpoint is not probed.
pub fn probe_endpoint(endpoint: &FederationEndpointConfig, watched: Result<EndpointState, String>) -> (r:
    EndpointState)
    ensures
        if !endpoint.enabled {
            r@ == unconnected(*endpoint)
        } else {
            match watched {
                Ok(state) => r == state,
                Err(message) => r@ == (Endpoint {
                    endpoint: *endpoint,
                    status: error_status(message@),
                    snapshot: None,
                    cursor: None,
                    error: Some(message@),
                }),
            }
        },
{
    if !endpoint.enabled {
        return EndpointState::configured(endpoint.clone());
    }
    match watched {
        Ok(state) => state,
        Err(message) => EndpointState {
            endpoint: endpoint.clone(),
            status: classify_error(message.as_str()),
            snapshot: None,
            cursor: None,
            error: Some(message),
        },
    }
}

/// The usage of all commands.
pub fn help_lines() -> (r: Vec<&'static str>)
    ensures
        r@ == seq![
            "herdr federation commands:",
            "  herdr federation list [--json]",
            "  herdr federation watch",
            "  herdr federation attach <endpoint> [--pane PANE_ID]",
        ],
{
    vec![
        "herdr federation commands:",
        "  herdr federation list [--json]",
        "  herdr federation watch",
        "  herdr federation attach <endpoint> [--pane PANE_ID]",
    ]
}

/// Each word asks for what it names, with just the words behind it that it takes; anything else
/// shows how it is used and fails.
pub proof fn words_ask_for_what_they_name(first: Seq<char>, id: Seq<char>, pane: Seq<char>)
    ensures
        command_of(Seq::empty()) == (Command::Help { code: 2 }),
        command_of(seq!["bridge"@]) == Command::Bridge,
        command_of(seq!["list"@]) == (Command::List { json: false }),
        command_of(seq!["status"@]) == (Command::List { json: false }),
        command_of(seq!["list"@, "--json"@]) == (Command::List { json: true }),
        command_of(seq!["status"@, "--json"@]) == (Command::List { json: true }),
        command_of(seq!["watch"@]) == Command::Watch,
        command_of(seq!["watch"@, id]) == Command::WatchUsage,
        command_of(seq!["attach"@]) == Command::AttachUsage,
        command_of(seq!["attach"@, id]) == (Command::Attach { endpoint_id: id, pane_id: None }),
        command_of(seq!["attach"@, id, "--pane"@, pane]) == (Command::Attach {
            endpoint_id: id,
            pane_id: Some(pane),
        }),
        command_of(seq!["attach"@, id, "--pane"@]) == Command::AttachUsage,
        first != "--pane"@ ==> command_of(seq!["attach"@, id, first, pane]) == Command::AttachUsage,
        first != "bridge"@ && first != "list"@ && first != "status"@ && first != "watch"@ && first
            != "attach"@ ==> command_of(seq![first]) == (Command::Help {
            code: if first == "-h"@ || first == "--help"@ || first == "help"@ {
                0
            } else {
                2
            },
        }),
{
    reveal_strlit("bridge");
    reveal_strlit("list");
    reveal_strlit("status");
    reveal_strlit("watch");
    reveal_strlit("attach");
    reveal_strlit("--json");
    let none = Seq::<Seq<char>>::empty();
    assert("bridge"@.len() == 6 && "list"@.len() == 4 && "status"@.len() == 6 && "watch"@.len() == 5
        && "attach"@.len() == 6);
    assert("bridge"@[0] == 'b' && "status"@[0] == 's' && "attach"@[0] == 'a');
    assert(seq!["list"@].skip(1) =~= none);
    assert(seq!["status"@].skip(1) =~= none);
    assert(seq!["list"@, "--json"@].skip(1) =~= seq!["--json"@]);
    assert(seq!["status"@, "--json"@].skip(1) =~= seq!["--json"@]);
    assert(seq!["attach"@].skip(1) =~= none);
    assert(seq!["attach"@, id].skip(1) =~= seq![id]);
    assert(seq!["attach"@, id, "--pane"@].skip(1) =~= seq![id, "--pane"@]);
    assert(seq!["attach"@, id, "--pane"@, pane].skip(1) =~= seq![id, "--pane"@, pane]);
    assert(seq!["attach"@, id, first, pane].skip(1) =~= seq![id, first, pane]);
}

/// A line names the endpoint by its label and its id, and says how it stands; the error, if there
/// is one, has a line of its own below.
pub proof fn lines_say_how_endpoints_stand(state: Endpoint)
    ensures
        ({
            let lines = state_lines(state);
            let name = match state.endpoint.label {
                Some(label) => label@,
                None => state.endpoint.id@,
            };
            let head = name + " ("@ + state.endpoint.id@ + ")  "@ + status_words(state.status);
            &&& lines.len() == (if state.error is Some { 2int } else { 1 })
            &&& head.is_prefix_of(lines[0])
            &&& state.snapshot is None ==> lines[0] == head
            &&& state.snapshot matches Some(snapshot) ==> lines[0] == head + " · "@ + decimal(
                snapshot.workspaces.len(),
            ) + " workspaces · "@ + decimal(snapshot.panes.len()) + " panes"@
            &&& state.error matches Some(error) ==> lines[1] == "  "@ + error
        }),
{
    reveal_strlit("");
    let name = match state.endpoint.label {
        Some(label) => label@,
        None => state.endpoint.id@,
    };
    let head = name + " ("@ + state.endpoint.id@ + ")  "@ + status_words(state.status);
    if let Some(snapshot) = state.snapshot {
        assert(state_lines(state)[0] =~= head + " · "@ + decimal(snapshot.workspaces.len())
            + " workspaces · "@ + decimal(snapshot.panes.len()) + " panes"@);
    } else {
        assert(state_lines(state)[0] =~= head);
    }
}

/// The lines of all endpoints stand in the order of the endpoints.
pub proof fn endpoints_are_listed_in_order(a: Seq<Endpoint>, b: Seq<Endpoint>, state: Endpoint)
    ensures
        all_lines(a + b) == all_lines(a) + all_lines(b),
        all_lines(seq![state]) == state_lines(state),
        all_lines(Seq::empty()) == Seq::<Seq<char>>::empty(),
    decreases b.len(),
{
    reveal_with_fuel(all_lines, 2);
    assert(seq![state].drop_last() =~= Seq::<Endpoint>::empty());
    assert(all_lines(seq![state]) =~= state_lines(state));
    if b.len() == 0 {
        assert(a + b =~= a);
        assert(all_lines(a) + all_lines(b) =~= all_lines(a));
    } else {
        endpoints_are_listed_in_order(a, b.drop_last(), state);
        assert((a + b).drop_last() =~= a + b.drop_last());
        assert((a + b).last() == b.last());
        assert(all_lines(a) + all_lines(b) =~= all_lines(a) + all_lines(b.drop_last())
            + state_lines(b.last()));
    }
}

} // verus!
