use linked_paths::registry_from_sections;
use linked_paths::create_local_network;
use linked_paths::get_linked_paths;
use linked_paths::link_directory;
use linked_paths::remove_network;
use linked_paths::unlink_directory;
use linked_paths::DarkWebNetwork;
use linked_paths::FileError;
use linked_paths::InternetNetwork;
use linked_paths::LinkedPath;
use linked_paths::LocalNetwork;
use linked_paths::Network;
use linked_paths::RegistryDoc;

fn lp(name: &str, path: &str) -> LinkedPath {
    LinkedPath { name: name.to_string(), path: path.to_string() }
}

fn doc_with(linked: Vec<LinkedPath>, networks: Vec<Network>) -> RegistryDoc {
    RegistryDoc { linked_paths: linked, networks }
}

fn sample_network() -> Network {
    Network::InternetNetwork(InternetNetwork {
        name: "remote".to_string(),
        address: "203.0.113.7:8080".to_string(),
    })
}

#[test]
fn link_then_list_has_exactly_one_entry() {
    let mut doc = doc_with(vec![lp("music", "/srv/music")], vec![sample_network()]);
    let msg = link_directory(&mut doc, "/tmp/docs".to_string(), "docs".to_string());
    assert_eq!(msg, "Directory linked successfully");
    let listed = get_linked_paths(&doc);
    let hits: Vec<&LinkedPath> = listed
        .iter()
        .filter(|x| x.name == "docs" && x.path == "/tmp/docs")
        .collect();
    assert_eq!(hits.len(), 1);
    // The sibling networks section is untouched.
    assert_eq!(doc.networks.len(), 1);
    assert_eq!(doc.networks[0], sample_network());
}

#[test]
fn link_duplicate_name_rejected_and_unchanged() {
    let mut doc = doc_with(vec![lp("docs", "/tmp/docs")], vec![]);
    let msg = link_directory(&mut doc, "/elsewhere".to_string(), "docs".to_string());
    assert_eq!(msg, "Linked path with this name already exists");
    assert_eq!(doc.linked_paths.len(), 1);
    assert_eq!(doc.linked_paths[0], lp("docs", "/tmp/docs"));
}

#[test]
fn link_empty_name_rejected() {
    let mut doc = doc_with(vec![], vec![]);
    let msg = link_directory(&mut doc, "/tmp/docs".to_string(), "".to_string());
    assert_eq!(msg, "Name your linked path");
    assert!(doc.linked_paths.is_empty());
}

#[test]
fn link_empty_path_rejected() {
    let mut doc = doc_with(vec![], vec![]);
    let msg = link_directory(&mut doc, "".to_string(), "docs".to_string());
    assert_eq!(msg, "Directory not selected");
    assert!(doc.linked_paths.is_empty());
}

#[test]
fn unlink_removes_entry_and_keeps_networks() {
    let mut doc = doc_with(
        vec![lp("docs", "/tmp/docs"), lp("music", "/srv/music")],
        vec![sample_network()],
    );
    let msg = unlink_directory(&mut doc, "docs".to_string());
    assert_eq!(msg, "Directory removed successfully");
    assert_eq!(doc.linked_paths, vec![lp("music", "/srv/music")]);
    assert_eq!(doc.networks.len(), 1);
}

#[test]
fn unlink_absent_name_is_idempotent_success() {
    let mut doc = doc_with(vec![lp("music", "/srv/music")], vec![]);
    let msg1 = unlink_directory(&mut doc, "ghost".to_string());
    assert_eq!(msg1, "Directory removed successfully");
    let after_once = doc.linked_paths.clone();
    let msg2 = unlink_directory(&mut doc, "ghost".to_string());
    assert_eq!(msg2, "Directory removed successfully");
    assert_eq!(doc.linked_paths, after_once);
    assert_eq!(doc.linked_paths, vec![lp("music", "/srv/music")]);
}

#[test]
fn unlink_removes_every_entry_of_the_name() {
    // An externally edited backing file may carry duplicate names; unlink
    // clears them all.
    let mut doc = doc_with(
        vec![lp("docs", "/a"), lp("music", "/srv/music"), lp("docs", "/b")],
        vec![],
    );
    let msg = unlink_directory(&mut doc, "docs".to_string());
    assert_eq!(msg, "Directory removed successfully");
    assert_eq!(doc.linked_paths, vec![lp("music", "/srv/music")]);
}

#[test]
fn create_local_network_appends_with_fixed_port() {
    let mut doc = doc_with(vec![lp("docs", "/tmp/docs")], vec![]);
    let msg = create_local_network(
        &mut doc,
        "home".to_string(),
        vec![lp("docs", "/tmp/docs")],
    );
    assert_eq!(msg, "Network created successfully");
    assert_eq!(doc.networks.len(), 1);
    match &doc.networks[0] {
        Network::LocalNetwork(n) => {
            assert_eq!(n.name, "home");
            assert_eq!(n.port, 3030);
            assert_eq!(n.linked_paths, vec![lp("docs", "/tmp/docs")]);
        }
        other => panic!("unexpected network variant: {:?}", other),
    }
    assert_eq!(doc.linked_paths, vec![lp("docs", "/tmp/docs")]);
}

#[test]
fn create_local_network_rejects_empty_name_and_paths() {
    let mut doc = doc_with(vec![], vec![]);
    let msg = create_local_network(&mut doc, "".to_string(), vec![lp("a", "/a")]);
    assert_eq!(msg, "Name your network");
    assert!(doc.networks.is_empty());
    let msg = create_local_network(&mut doc, "home".to_string(), vec![]);
    assert_eq!(msg, "Paths not selected");
    assert!(doc.networks.is_empty());
}

#[test]
fn remove_network_matches_variant_and_name() {
    let local = Network::LocalNetwork(LocalNetwork {
        name: "home".to_string(),
        port: 3030,
        linked_paths: vec![],
    });
    let internet_same_name = Network::InternetNetwork(InternetNetwork {
        name: "home".to_string(),
        address: "198.51.100.2:80".to_string(),
    });
    let dark = Network::DarkWebNetwork(DarkWebNetwork {
        name: "hidden".to_string(),
        address: "example.onion".to_string(),
    });
    let mut doc = doc_with(
        vec![lp("docs", "/tmp/docs")],
        vec![local.clone(), internet_same_name.clone(), dark.clone()],
    );
    let target = Network::LocalNetwork(LocalNetwork {
        name: "home".to_string(),
        port: 0,
        linked_paths: vec![],
    });
    let msg = remove_network(&mut doc, target);
    assert_eq!(msg, "Directory removed successfully");
    // Only the local network of that name went; the internet network sharing
    // the name stays, and the linked paths are untouched.
    assert_eq!(doc.networks, vec![internet_same_name, dark]);
    assert_eq!(doc.linked_paths, vec![lp("docs", "/tmp/docs")]);
}

#[test]
fn remove_network_absent_is_noop_success() {
    let mut doc = doc_with(vec![], vec![sample_network()]);
    let target = Network::DarkWebNetwork(DarkWebNetwork {
        name: "ghost".to_string(),
        address: "nowhere.onion".to_string(),
    });
    let msg = remove_network(&mut doc, target);
    assert_eq!(msg, "Directory removed successfully");
    assert_eq!(doc.networks, vec![sample_network()]);
}

#[test]
fn registry_from_sections_requires_both_sections() {
    let r = registry_from_sections(None, Some(vec![]));
    assert_eq!(r.err(), Some(FileError::MissingLinkedPathsError));
    let r = registry_from_sections(Some(vec![lp("a", "/a")]), None);
    assert_eq!(r.err(), Some(FileError::MissingLinkedPathsError));
    let r = registry_from_sections(Some(vec![lp("a", "/a")]), Some(vec![sample_network()]));
    let doc = r.ok().unwrap();
    assert_eq!(doc.linked_paths, vec![lp("a", "/a")]);
    assert_eq!(doc.networks, vec![sample_network()]);
}

#[test]
fn file_error_messages() {
    assert_eq!(
        FileError::FileOpenError("no such file".to_string()).message(),
        "failed to open file"
    );
    assert_eq!(
        FileError::SerdeJsonError("bad token".to_string()).message(),
        "failed serialize json json"
    );
    assert_eq!(
        FileError::MissingLinkedPathsError.message(),
        "missing 'linked_paths' field in the JSON"
    );
}
