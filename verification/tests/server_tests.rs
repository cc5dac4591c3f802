use linked_paths::bind_address;
use linked_paths::resolve_request;
use linked_paths::start_file_server_command;
use linked_paths::stop_file_server_command;
use linked_paths::LinkedPath;
use linked_paths::RouteTarget;
use linked_paths::ServerMode;
use linked_paths::ServerState;

fn lp(name: &str, path: &str) -> LinkedPath {
    LinkedPath { name: name.to_string(), path: path.to_string() }
}

fn segs(parts: &[&str]) -> Vec<String> {
    parts.iter().map(|s| s.to_string()).collect()
}

#[test]
fn start_while_running_is_rejected_and_state_kept() {
    let mut state = ServerState::default();
    let snapshot = vec![lp("docs", "/tmp/docs")];
    let r = start_file_server_command(&mut state, ServerMode::LocalHost, &snapshot);
    assert_eq!(r, Ok("Server started!".to_string()));
    assert!(state.running);

    let r = start_file_server_command(&mut state, ServerMode::LocalHost, &snapshot);
    assert_eq!(r, Err("Server is already running.".to_string()));
    // The prior session is left serving: the state is unchanged.
    assert!(state.running);
}

#[test]
fn stop_while_not_running_is_rejected() {
    let mut state = ServerState::default();
    let r = stop_file_server_command(&mut state);
    assert_eq!(r, Err("Server is not running.".to_string()));
    assert!(!state.running);
}

#[test]
fn start_stop_cycle() {
    let mut state = ServerState::default();
    let snapshot = vec![lp("docs", "/tmp/docs")];
    assert!(start_file_server_command(&mut state, ServerMode::LocalHost, &snapshot).is_ok());
    let r = stop_file_server_command(&mut state);
    assert_eq!(r, Ok("Server stopped.".to_string()));
    assert!(!state.running);
    // Stopped again: rejected.
    assert!(stop_file_server_command(&mut state).is_err());
    // And it can start afresh.
    let r = start_file_server_command(&mut state, ServerMode::LocalHost, &snapshot);
    assert_eq!(r, Ok("Server started!".to_string()));
}

#[test]
fn start_with_empty_snapshot_is_rejected_outcome_not_error() {
    let mut state = ServerState::default();
    let r = start_file_server_command(&mut state, ServerMode::LocalHost, &vec![]);
    assert_eq!(r, Ok("Choose linked paths to share".to_string()));
    assert!(!state.running);
}

#[test]
fn root_serves_manifest_and_names_serve_directories() {
    let snapshot = vec![lp("docs", "/tmp/docs"), lp("music", "/srv/music")];
    assert_eq!(resolve_request(&snapshot, &segs(&[])), RouteTarget::Manifest);
    assert_eq!(
        resolve_request(&snapshot, &segs(&["docs", "readme.txt"])),
        RouteTarget::Directory(0)
    );
    assert_eq!(resolve_request(&snapshot, &segs(&["music"])), RouteTarget::Directory(1));
    assert_eq!(resolve_request(&snapshot, &segs(&["other"])), RouteTarget::NotFound);
}

#[test]
fn first_registered_route_wins_on_equal_names() {
    let snapshot = vec![lp("docs", "/first"), lp("docs", "/second")];
    assert_eq!(resolve_request(&snapshot, &segs(&["docs"])), RouteTarget::Directory(0));
}

#[test]
fn local_mode_binds_loopback_fixed_port() {
    let b = bind_address(&ServerMode::LocalHost).unwrap();
    assert_eq!((b.octet0, b.octet1, b.octet2, b.octet3), (127, 0, 0, 1));
    assert_eq!(b.port, 3030);
    // The wider modes are declared but given no binding.
    assert!(bind_address(&ServerMode::Internet).is_none());
    assert!(bind_address(&ServerMode::DarkWeb).is_none());
}
