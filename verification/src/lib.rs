//! A library for sharing local directories: a registry of named "linked
//! paths" backed by a JSON document, a reconciler that keeps a set of
//! filesystem watches in step with that registry, and a small state machine
//! for a localhost file server that serves each linked path under a route
//! named after it.

use vstd::prelude::*;

mod jsonfmt;
mod reconcile;
mod registry;
mod server;
mod types;

pub use jsonfmt::dec_digits;
pub use jsonfmt::dec_int;
pub use jsonfmt::escape_char;
pub use jsonfmt::escape_string;
pub use jsonfmt::linked_path_json;
pub use jsonfmt::manifest_json;
pub use jsonfmt::manifest_json_text;
pub use jsonfmt::network_json;
pub use jsonfmt::quoted;
pub use jsonfmt::registry_json;
pub use jsonfmt::registry_json_text;

pub use server::bind_address;
pub use server::resolve_request;
pub use server::start_file_server_command;
pub use server::stop_file_server_command;
pub use server::BindAddr;
pub use server::RouteTarget;

pub use reconcile::compute_watch_delta;
pub use reconcile::apply_watch_results;
pub use reconcile::config_event_hits;
pub use reconcile::dropped_added;
pub use reconcile::except;
pub use reconcile::fresh_entries;
pub use reconcile::kept_added;
pub use reconcile::lemma_except_membership;
pub use reconcile::lemma_fresh_entries_membership;
pub use reconcile::lemma_fresh_entries_no_dup;
pub use reconcile::lemma_kept_dropped_membership;
pub use reconcile::lemma_reconcile_cycle;
pub use reconcile::WatchDelta;
pub use reconcile::WatchedSet;

pub use registry::count_entry;
pub use registry::create_local_network;
pub use registry::get_linked_paths;
pub use registry::has_name;
pub use registry::lemma_link_then_list_exactly_one;
pub use registry::lemma_remove_named_membership;
pub use registry::lemma_unlink_idempotent;
pub use registry::link_directory;
pub use registry::names_unique;
pub use registry::registry_from_sections;
pub use registry::remove_named;
pub use registry::remove_network;
pub use registry::remove_network_entries;
pub use registry::unlink_directory;
pub use registry::RegistryDoc;
pub use registry::RegistryDocV;
pub use types::DarkWebNetwork;
pub use types::FileError;
pub use types::FileWatcherError;
pub use types::InternetNetwork;
pub use types::LinkedPath;
pub use types::LinkedPathV;
pub use types::LocalNetwork;
pub use types::MeasureLatencyError;
pub use types::Network;
pub use types::NetworkV;
pub use types::SendError;
pub use types::ServerMode;
pub use types::ServerState;

verus! {

/// A linked path is valid when both its display name and its directory path
/// are non-empty.
pub open spec fn linked_path_valid(name: Seq<char>, path: Seq<char>) -> bool {
    name.len() > 0 && path.len() > 0
}

} // verus!
