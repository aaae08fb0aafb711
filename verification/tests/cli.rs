//! The federation commands.

use herdr::cli::{child_exit_code, disabled_list, federation_attach, federation_watch, help_lines};
use herdr::cli::{list_report, print_human_state, probe_endpoint, run_federation_command};
use herdr::cli::FederationCommand;
use herdr::federation::directory::sort_states;
use herdr::federation::endpoint::{classify_error, EndpointConnectionStatus, EndpointState};
use herdr::federation::endpoint::{FederationConfig, FederationEndpointConfig};

fn endpoint(id: &str) -> FederationEndpointConfig {
    FederationEndpointConfig {
        id: id.into(),
        target: format!("{id}.example"),
        label: None,
        session: "default".into(),
        enabled: true,
    }
}

fn state(id: &str, status: EndpointConnectionStatus) -> EndpointState {
    EndpointState { status, ..EndpointState::configured(endpoint(id)) }
}

fn args(words: &[&str]) -> Vec<String> {
    words.iter().map(|word| word.to_string()).collect()
}

#[test]
fn incompatible_watch_errors_are_distinguished() {
    assert_eq!(
        classify_error("server does not support federation session.watch"),
        EndpointConnectionStatus::Incompatible
    );
}

#[test]
fn commands_are_read() {
    let run = |words: &[&str]| run_federation_command(&args(words));
    assert_eq!(run(&["bridge"]), FederationCommand::Bridge);
    assert_eq!(run(&["bridge", "x"]), FederationCommand::Help { code: 2 });
    assert_eq!(run(&["list"]), FederationCommand::List { json: false });
    assert_eq!(run(&["status", "--json"]), FederationCommand::List { json: true });
    assert_eq!(run(&["list", "-h"]), FederationCommand::ListUsage { code: 0 });
    assert_eq!(run(&["list", "x"]), FederationCommand::ListUsage { code: 2 });
    assert_eq!(run(&["watch"]), FederationCommand::Watch);
    assert_eq!(run(&["watch", "x"]), FederationCommand::WatchUsage);
    assert_eq!(
        run(&["attach", "tana"]),
        FederationCommand::Attach { endpoint_id: "tana".into(), pane_id: None }
    );
    assert_eq!(
        run(&["attach", "tana", "--pane", "w1:p1"]),
        FederationCommand::Attach { endpoint_id: "tana".into(), pane_id: Some("w1:p1".into()) }
    );
    assert_eq!(run(&["attach"]), FederationCommand::AttachUsage);
    assert_eq!(run(&["attach", "tana", "--pane"]), FederationCommand::AttachUsage);
    assert_eq!(run(&["help"]), FederationCommand::Help { code: 0 });
    assert_eq!(run(&[]), FederationCommand::Help { code: 2 });
    assert_eq!(help_lines()[0], "herdr federation commands:");
}

#[test]
fn a_state_is_one_line_and_its_error_another() {
    let mut broken = state("tana", EndpointConnectionStatus::Disconnected);
    broken.error = Some("refused".into());
    assert_eq!(print_human_state(&broken), vec!["tana (tana)  disconnected", "  refused"]);
    broken.endpoint.label = Some("Tana".into());
    broken.error = None;
    assert_eq!(print_human_state(&broken), vec!["Tana (tana)  disconnected"]);
}

#[test]
fn a_list_fails_while_an_endpoint_is_missing() {
    let (lines, code) = list_report(&sort_states(&vec![
        state("b", EndpointConnectionStatus::Connected),
        state("a", EndpointConnectionStatus::Connected),
    ]));
    assert_eq!(lines, vec!["a (a)  connected", "b (b)  connected"]);
    assert_eq!(code, 0);
    let (_, code) = list_report(&vec![state("a", EndpointConnectionStatus::Incompatible)]);
    assert_eq!(code, 1);
    let (lines, code) = list_report(&Vec::new());
    assert_eq!(lines, vec!["no federation endpoints configured"]);
    assert_eq!(code, 0);
    assert_eq!(disabled_list(true), "[]");
    assert_eq!(disabled_list(false), "federation is disabled");
}

#[test]
fn watching_needs_endpoints() {
    let watch = |enabled: bool, endpoints: Vec<FederationEndpointConfig>| {
        federation_watch(&FederationConfig { enabled, endpoints })
    };
    assert_eq!(watch(false, vec![endpoint("a")]), Err("federation is disabled"));
    assert_eq!(watch(true, Vec::new()), Err("no federation endpoints configured"));
    assert_eq!(watch(true, vec![endpoint("a")]), Ok(()));
}

#[test]
fn attaching_names_a_known_enabled_endpoint() {
    let off = FederationEndpointConfig { enabled: false, ..endpoint("off") };
    let config = FederationConfig { enabled: true, endpoints: vec![endpoint("tana"), off] };
    assert_eq!(
        federation_attach(&config, "nope", &None).unwrap_err(),
        "unknown federation endpoint: nope"
    );
    assert_eq!(
        federation_attach(&config, "off", &None).unwrap_err(),
        "federation endpoint off is disabled"
    );
    let plan = federation_attach(&config, "tana", &Some("w1:p1".into())).unwrap();
    assert_eq!(plan.args, vec!["--remote", "tana.example", "--session", "default"]);
    assert_eq!(plan.focus, Some(("federation:tana:focus".into(), "w1:p1".into())));
    assert_eq!(child_exit_code(Some(3)), 3);
    assert_eq!(child_exit_code(None), 1);
}

#[test]
fn a_probe_that_failed_says_why() {
    let probed = probe_endpoint(&endpoint("tana"), Err("refused".into()));
    assert_eq!(probed.status, EndpointConnectionStatus::Disconnected);
    assert_eq!(probed.error.as_deref(), Some("refused"));
    let off = FederationEndpointConfig { enabled: false, ..endpoint("tana") };
    let probed = probe_endpoint(&off, Err("refused".into()));
    assert_eq!(probed.status, EndpointConnectionStatus::Disabled);
    assert_eq!(probed.error, None);
}
