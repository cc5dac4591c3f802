//! One pass over the whole flow: a registry holding `docs`, a server started
//! on its snapshot, the manifest the root route serves, and the resolution
//! of requests against the route table.

use linked_paths::get_linked_paths;
use linked_paths::link_directory;
use linked_paths::manifest_json_text;
use linked_paths::resolve_request;
use linked_paths::start_file_server_command;
use linked_paths::stop_file_server_command;
use linked_paths::LinkedPath;
use linked_paths::RegistryDoc;
use linked_paths::RouteTarget;
use linked_paths::ServerMode;
use linked_paths::ServerState;

#[test]
fn registry_to_served_manifest() {
    // The registry gains one linked path.
    let mut doc = RegistryDoc { linked_paths: vec![], networks: vec![] };
    let msg = link_directory(&mut doc, "/tmp/docs".to_string(), "docs".to_string());
    assert_eq!(msg, "Directory linked successfully");

    // The server starts on the registry's snapshot, in local mode.
    let snapshot = get_linked_paths(&doc);
    let mut state = ServerState::default();
    let r = start_file_server_command(&mut state, ServerMode::LocalHost, &snapshot);
    assert_eq!(r, Ok("Server started!".to_string()));

    // The root route serves the manifest of the snapshot.
    assert_eq!(resolve_request(&snapshot, &vec![]), RouteTarget::Manifest);
    assert_eq!(
        manifest_json_text(&snapshot),
        r#"[{"name":"docs","path":"/tmp/docs"}]"#
    );

    // A request under the linked path's name lands in its directory tree;
    // anything else finds no route.
    let hit = vec!["docs".to_string(), "readme.txt".to_string()];
    assert_eq!(resolve_request(&snapshot, &hit), RouteTarget::Directory(0));
    let miss = vec!["nothere".to_string(), "readme.txt".to_string()];
    assert_eq!(resolve_request(&snapshot, &miss), RouteTarget::NotFound);

    let r = stop_file_server_command(&mut state);
    assert_eq!(r, Ok("Server stopped.".to_string()));
}
