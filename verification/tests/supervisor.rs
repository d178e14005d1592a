use mcp_inspector_desktop::config::AppConfig;
use mcp_inspector_desktop::inspector::{
    plan_launch, InspectorError, InspectorHandle, LaunchSpec, PollStatus,
};
use mcp_inspector_desktop::ports::{
    accept_in_range, allocate_port_pair, pair_from_samples, pick_unused_port_in_range, PortPair,
};
use mcp_inspector_desktop::state::AppState;

fn launch_spec() -> LaunchSpec {
    LaunchSpec {
        command: "mcp-inspector".to_string(),
        working_directory: "/tmp/work".to_string(),
        env_overrides: vec![("MCP_AUTO_OPEN_ENABLED".to_string(), "true".to_string())],
    }
}

fn handle(client_port: u16) -> InspectorHandle {
    InspectorHandle {
        client_port,
        server_port: 6277,
        session_id: "sess-1".to_string(),
    }
}

#[test]
fn plan_holds_ports_flag_and_overrides_in_order() {
    let plan = plan_launch(&launch_spec(), PortPair { client_port: 5174, server_port: 6277 });
    assert_eq!(plan.program, "mcp-inspector");
    assert_eq!(plan.working_directory, "/tmp/work");
    assert_eq!(plan.ports, PortPair { client_port: 5174, server_port: 6277 });
    assert_eq!(
        plan.env,
        [
            ("CLIENT_PORT".to_string(), "5174".to_string()),
            ("SERVER_PORT".to_string(), "6277".to_string()),
            ("MCP_AUTO_OPEN_ENABLED".to_string(), "false".to_string()),
            ("MCP_AUTO_OPEN_ENABLED".to_string(), "true".to_string()),
        ]
    );
}

#[test]
fn prepare_allocates_distinct_ports_and_a_session_id() {
    match InspectorHandle::prepare(&launch_spec()) {
        Ok((plan, h)) => {
            assert_ne!(plan.ports.client_port, plan.ports.server_port);
            assert_eq!(h.client_port, plan.ports.client_port);
            assert_eq!(h.server_port, plan.ports.server_port);
            assert_eq!(h.session_id.len(), 36);
        }
        Err(e) => assert!(matches!(e, InspectorError::NoAvailablePort(_, _))),
    }
}

#[test]
fn range_constrained_allocation_stays_in_range() {
    if let Some(p) = pick_unused_port_in_range(1024, 65535) {
        assert!((1024..=65535).contains(&p));
    }
    match allocate_port_pair() {
        Ok(pp) => assert_ne!(pp.client_port, pp.server_port),
        Err(e) => assert!(matches!(e, InspectorError::NoAvailablePort(_, _))),
    }
}

#[test]
fn samples_are_kept_exactly_when_in_range() {
    assert_eq!(accept_in_range(5200, 5174, 5274), Some(5200));
    assert_eq!(accept_in_range(5174, 5174, 5274), Some(5174));
    assert_eq!(accept_in_range(5274, 5174, 5274), Some(5274));
    assert_eq!(accept_in_range(5173, 5174, 5274), None);
    assert_eq!(accept_in_range(5275, 5174, 5274), None);
}

#[test]
fn a_pair_forms_exactly_when_the_samples_differ() {
    assert_eq!(
        pair_from_samples(5174, 6277),
        Some(PortPair { client_port: 5174, server_port: 6277 })
    );
    assert_eq!(pair_from_samples(5174, 5174), None);
}

#[test]
fn client_url_is_host_and_port() {
    let h = handle(5174);
    assert_eq!(h.client_url(), "http://localhost:5174");
    assert_eq!(h.client_port(), 5174);
}

#[test]
fn running_only_when_the_poll_says_so() {
    let h = handle(5174);
    assert!(h.is_running(PollStatus::Running));
    assert!(!h.is_running(PollStatus::Exited));
    assert!(!h.is_running(PollStatus::PollFailed));
}

#[test]
fn error_messages_are_exact() {
    assert_eq!(
        InspectorError::NodeNotFound.message(),
        "Node.js runtime not found in PATH"
    );
    assert_eq!(
        InspectorError::NoAvailablePort(6277, 6377).message(),
        "No available port in range 6277-6377"
    );
    assert_eq!(
        InspectorError::SpawnError("boom".to_string()).message(),
        "Process spawn failed: boom"
    );
    assert_eq!(
        InspectorError::PrematureExit(Some(-3)).message(),
        "Inspector exited prematurely with code Some(-3)"
    );
    assert_eq!(
        InspectorError::PrematureExit(None).message(),
        "Inspector exited prematurely with code None"
    );
}

#[test]
fn second_start_is_refused_and_first_untouched() {
    let mut state = AppState::new(AppConfig::default());
    assert!(state.attach_inspector(handle(5174)).is_ok());
    let err = state.attach_inspector(handle(9999)).unwrap_err();
    assert_eq!(
        err,
        "Inspector already running. Please stop current instance first."
    );
    let active = state.inspector.as_ref().expect("first handle still active");
    assert_eq!(active.client_port, 5174);
    assert_eq!(active.session_id, "sess-1");
}

#[test]
fn stopping_without_an_active_process_is_a_no_op() {
    let mut state = AppState::new(AppConfig::default());
    assert!(state.take_inspector().is_none());
    assert!(state.attach_inspector(handle(5174)).is_ok());
    let taken = state.take_inspector().expect("the active handle");
    assert_eq!(taken.client_port, 5174);
    assert!(state.take_inspector().is_none());
    assert!(state.inspector.is_none());
}

#[test]
fn status_reports_url_while_running_and_clears_an_exited_child() {
    let mut state = AppState::new(AppConfig::default());
    assert_eq!(state.status(false), None);
    assert!(state.attach_inspector(handle(5174)).is_ok());
    assert_eq!(state.status(true), Some("http://localhost:5174".to_string()));
    assert!(state.inspector.is_some());
    assert_eq!(state.status(false), None);
    assert!(state.inspector.is_none());
    assert_eq!(state.get_recent_profiles().len(), 0);
}
