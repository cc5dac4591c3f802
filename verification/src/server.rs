//! The adaptive file server's lifecycle and route table.
//!
//! The server is a single running-or-stopped session: starting it while it
//! runs, or with an empty snapshot, is rejected with a user-facing outcome,
//! and stopping it while stopped is rejected likewise. Its route table is the
//! registry snapshot it was started with: one directory tree per linked
//! path, reached under the path's name, plus a default route serving the
//! manifest at the root.

use vstd::prelude::*;
use vstd::string::*;

use crate::types::LinkedPath;
use crate::types::ServerMode;
use crate::types::ServerState;

verus! {

/// Starts the file server on the given registry snapshot. Rejected with a
/// user-facing outcome when the snapshot is empty, and with an
/// already-running rejection when a session is running — in both cases the
/// prior state, and so whatever the prior session serves, is unchanged. On
/// acceptance the one session transitions to running.
pub fn start_file_server_command(
    state: &mut ServerState,
    server_mode: ServerMode,
    linked_paths: &Vec<LinkedPath>,
) -> (r: Result<String, String>)
    ensures
        linked_paths@.len() == 0 ==> (r matches Ok(m) && m@ == "Choose linked paths to share"@)
            && *final(state) == *old(state),
        linked_paths@.len() > 0 && old(state).running ==> (r matches Err(m) && m@
            == "Server is already running."@) && *final(state) == *old(state),
        linked_paths@.len() > 0 && !old(state).running ==> (r matches Ok(m) && m@
            == "Server started!"@) && final(state).running,
{
    if linked_paths.len() == 0 {
        return Ok(String::from_str("Choose linked paths to share"));
    }
    if state.running {
        return Err(String::from_str("Server is already running."));
    }
    state.running = true;
    Ok(String::from_str("Server started!"))
}

/// Stops the running file server. Rejected with a not-running rejection when
/// no session is running; on acceptance the session transitions to stopped.
pub fn stop_file_server_command(state: &mut ServerState) -> (r: Result<String, String>)
    ensures
        old(state).running ==> (r matches Ok(m) && m@ == "Server stopped."@)
            && !final(state).running,
        !old(state).running ==> (r matches Err(m) && m@ == "Server is not running."@)
            && *final(state) == *old(state),
{
    if state.running {
        state.running = false;
        Ok(String::from_str("Server stopped."))
    } else {
        Err(String::from_str("Server is not running."))
    }
}

/// Where a request lands in the server's route table.
#[derive(PartialEq, Eq, Structural, Debug, Clone, Copy)]
pub enum RouteTarget {
    /// The root route: the manifest of the served linked paths.
    Manifest,
    /// The directory tree of the linked path at this index of the snapshot.
    Directory(usize),
    /// No route matches.
    NotFound,
}

/// Resolves a request path, split into segments, against the snapshot the
/// server was started with: the bare root serves the manifest; otherwise the
/// first linked path whose name equals the first segment serves its
/// directory tree; otherwise nothing matches. The manifest route never
/// shadows a linked path, and between two linked paths of equal name the
/// first registered wins.
pub fn resolve_request(linked_paths: &Vec<LinkedPath>, segments: &Vec<String>) -> (t: RouteTarget)
    ensures
        segments@.len() == 0 ==> t == RouteTarget::Manifest,
        segments@.len() > 0 ==> match t {
            RouteTarget::Manifest => false,
            RouteTarget::Directory(i) => 0 <= i < linked_paths@.len()
                && linked_paths.deep_view()[i as int].name == segments@[0]@ && (forall|j: int|
                0 <= j < i ==> linked_paths.deep_view()[j].name != segments@[0]@),
            RouteTarget::NotFound => forall|j: int|
                0 <= j < linked_paths@.len() ==> linked_paths.deep_view()[j].name != segments@[0]@,
        },
{
    if segments.len() == 0 {
        return RouteTarget::Manifest;
    }
    let first = &segments[0];
    let mut i: usize = 0;
    while i < linked_paths.len()
        invariant
            i <= linked_paths.len(),
            segments@.len() > 0,
            first@ == segments@[0]@,
            forall|j: int| 0 <= j < i ==> linked_paths.deep_view()[j].name != segments@[0]@,
        decreases linked_paths.len() - i,
    {
        if linked_paths[i].name == *first {
            assert(linked_paths.deep_view()[i as int].name == segments@[0]@);
            return RouteTarget::Directory(i);
        }
        i = i + 1;
    }
    RouteTarget::NotFound
}

/// A socket binding: four address octets and a port.
#[derive(PartialEq, Eq, Structural, Debug, Clone, Copy)]
pub struct BindAddr {
    pub octet0: u8,
    pub octet1: u8,
    pub octet2: u8,
    pub octet3: u8,
    pub port: u16,
}

/// The binding policy of each server mode: local mode binds the loopback
/// address on the fixed port, while the wider modes are declared but
/// intentionally given no binding until exposure controls are designed.
pub fn bind_address(server_mode: &ServerMode) -> (r: Option<BindAddr>)
    ensures
        server_mode is LocalHost ==> r == Some(
            BindAddr { octet0: 127, octet1: 0, octet2: 0, octet3: 1, port: 3030 },
        ),
        !(server_mode is LocalHost) ==> r is None,
{
    match server_mode {
        ServerMode::LocalHost => Some(
            BindAddr { octet0: 127, octet1: 0, octet2: 0, octet3: 1, port: 3030 },
        ),
        ServerMode::Internet => None,
        ServerMode::DarkWeb => None,
    }
}

} // verus!
