//! Core data types: linked paths, networks, server modes, and error enums.

use vstd::prelude::*;
use vstd::string::*;

verus! {

/// A named mapping from a display name to a directory on disk.
#[derive(Debug, Clone, PartialEq, Eq, Hash)]
pub struct LinkedPath {
    pub name: String,
    pub path: String,
}

/// The mathematical value of a `LinkedPath`: both fields as character
/// sequences.
pub ghost struct LinkedPathV {
    pub name: Seq<char>,
    pub path: Seq<char>,
}

impl View for LinkedPath {
    type V = LinkedPathV;

    open spec fn view(&self) -> LinkedPathV {
        LinkedPathV { name: self.name@, path: self.path@ }
    }
}

impl DeepView for LinkedPath {
    type V = LinkedPathV;

    open spec fn deep_view(&self) -> LinkedPathV {
        self@
    }
}

impl LinkedPath {
    /// An explicit deep copy whose value is known to equal the original.
    pub fn duplicate(&self) -> (r: LinkedPath)
        ensures
            r@ == self@,
    {
        LinkedPath { name: self.name.clone(), path: self.path.clone() }
    }

    /// True exactly when both linked paths hold the same name and the same
    /// directory path.
    pub fn same_as(&self, other: &LinkedPath) -> (r: bool)
        ensures
            r == (self@ == other@),
    {
        self.name == other.name && self.path == other.path
    }
}

/// A named grouping of linked paths reachable on the local network.
#[derive(Debug, Clone, PartialEq, Eq)]
pub struct LocalNetwork {
    pub name: String,
    pub port: i32,
    pub linked_paths: Vec<LinkedPath>,
}

/// A named endpoint reachable over the internet.
#[derive(Debug, Clone, PartialEq, Eq)]
pub struct InternetNetwork {
    pub name: String,
    pub address: String,
}

/// A named endpoint reachable over an anonymizing overlay network.
#[derive(Debug, Clone, PartialEq, Eq)]
pub struct DarkWebNetwork {
    pub name: String,
    pub address: String,
}

/// A network grouping, discriminated by its transport kind.
#[derive(Debug, Clone, PartialEq, Eq)]
pub enum Network {
    LocalNetwork(LocalNetwork),
    InternetNetwork(InternetNetwork),
    DarkWebNetwork(DarkWebNetwork),
}

/// The mathematical value of a `Network`.
pub ghost enum NetworkV {
    Local { name: Seq<char>, port: int, linked_paths: Seq<LinkedPathV> },
    Internet { name: Seq<char>, address: Seq<char> },
    DarkWeb { name: Seq<char>, address: Seq<char> },
}

impl View for Network {
    type V = NetworkV;

    open spec fn view(&self) -> NetworkV {
        match self {
            Network::LocalNetwork(n) => NetworkV::Local {
                name: n.name@,
                port: n.port as int,
                linked_paths: n.linked_paths.deep_view(),
            },
            Network::InternetNetwork(n) => NetworkV::Internet {
                name: n.name@,
                address: n.address@,
            },
            Network::DarkWebNetwork(n) => NetworkV::DarkWeb {
                name: n.name@,
                address: n.address@,
            },
        }
    }
}

impl DeepView for Network {
    type V = NetworkV;

    open spec fn deep_view(&self) -> NetworkV {
        self@
    }
}

impl NetworkV {
    /// The name of the network, whatever its transport kind.
    pub open spec fn name(self) -> Seq<char> {
        match self {
            NetworkV::Local { name, .. } => name,
            NetworkV::Internet { name, .. } => name,
            NetworkV::DarkWeb { name, .. } => name,
        }
    }

    /// True when the two networks have the same transport kind.
    pub open spec fn same_kind(self, other: NetworkV) -> bool {
        match (self, other) {
            (NetworkV::Local { .. }, NetworkV::Local { .. }) => true,
            (NetworkV::Internet { .. }, NetworkV::Internet { .. }) => true,
            (NetworkV::DarkWeb { .. }, NetworkV::DarkWeb { .. }) => true,
            _ => false,
        }
    }
}

/// An explicit deep copy of a vector of linked paths, elementwise equal to
/// the original.
pub fn copy_linked_paths(v: &Vec<LinkedPath>) -> (r: Vec<LinkedPath>)
    ensures
        r.deep_view() == v.deep_view(),
{
    let mut r: Vec<LinkedPath> = Vec::new();
    let mut i: usize = 0;
    while i < v.len()
        invariant
            i <= v.len(),
            r@.len() == i,
            forall|j: int| 0 <= j < i ==> r@[j]@ == v@[j]@,
        decreases v.len() - i,
    {
        r.push(v[i].duplicate());
        i = i + 1;
    }
    proof {
        assert(r.deep_view() =~= v.deep_view());
    }
    r
}

impl Network {
    /// An explicit deep copy whose value is known to equal the original.
    pub fn duplicate(&self) -> (r: Network)
        ensures
            r@ == self@,
    {
        match self {
            Network::LocalNetwork(n) => Network::LocalNetwork(
                LocalNetwork {
                    name: n.name.clone(),
                    port: n.port,
                    linked_paths: copy_linked_paths(&n.linked_paths),
                },
            ),
            Network::InternetNetwork(n) => Network::InternetNetwork(
                InternetNetwork { name: n.name.clone(), address: n.address.clone() },
            ),
            Network::DarkWebNetwork(n) => Network::DarkWebNetwork(
                DarkWebNetwork { name: n.name.clone(), address: n.address.clone() },
            ),
        }
    }
}

/// The binding policy a file server is started with.
#[derive(Clone, Copy, PartialEq, Eq, Structural, Debug)]
pub enum ServerMode {
    LocalHost,
    Internet,
    DarkWeb,
}

/// The lifecycle state of the adaptive file server: at most one session may
/// be running at a time.
#[derive(Debug, Clone, PartialEq, Eq)]
pub struct ServerState {
    pub running: bool,
}

impl Default for ServerState {
    /// A fresh server state is stopped.
    fn default() -> (r: ServerState)
        ensures
            !r.running,
    {
        ServerState { running: false }
    }
}

/// A fault while reading or writing the registry's backing document.
#[derive(Debug, Clone, PartialEq, Eq)]
pub enum FileError {
    /// The backing file could not be opened, read, or written.
    FileOpenError(String),
    /// The backing document was not valid JSON.
    SerdeJsonError(String),
    /// The document parsed, but an expected sub-collection was absent.
    MissingLinkedPathsError,
}

impl FileError {
    /// A human-readable description of the fault.
    pub fn message(&self) -> (r: String)
        ensures
            self matches FileError::FileOpenError(_) ==> r@ == "failed to open file"@,
            self matches FileError::SerdeJsonError(_) ==> r@ == "failed serialize json json"@,
            self matches FileError::MissingLinkedPathsError ==> r@
                == "missing 'linked_paths' field in the JSON"@,
    {
        match self {
            FileError::FileOpenError(_) => String::from_str("failed to open file"),
            FileError::SerdeJsonError(_) => String::from_str("failed serialize json json"),
            FileError::MissingLinkedPathsError => String::from_str(
                "missing 'linked_paths' field in the JSON",
            ),
        }
    }
}

/// A fault while installing or servicing filesystem watches.
#[derive(Debug, Clone, PartialEq, Eq)]
pub enum FileWatcherError {
    DebouncerCreationError(String),
    SendError(String),
    WatchError(String),
    RecvError(String),
}

impl FileWatcherError {
    /// A human-readable description of the fault.
    pub fn message(&self) -> (r: String)
        ensures
            self matches FileWatcherError::DebouncerCreationError(_) ==> r@
                == "Failed to create debouncer"@,
            self matches FileWatcherError::SendError(_) ==> r@
                == "Failed to send file change event"@,
            self matches FileWatcherError::WatchError(_) ==> r@ == "Failed to watch path"@,
            self matches FileWatcherError::RecvError(_) ==> r@ == "Failed to receive file events"@,
    {
        match self {
            FileWatcherError::DebouncerCreationError(_) => String::from_str(
                "Failed to create debouncer",
            ),
            FileWatcherError::SendError(_) => String::from_str("Failed to send file change event"),
            FileWatcherError::WatchError(_) => String::from_str("Failed to watch path"),
            FileWatcherError::RecvError(_) => String::from_str("Failed to receive file events"),
        }
    }
}

/// A fault while measuring network latency to a gateway.
#[derive(Debug, Clone, PartialEq, Eq)]
pub enum MeasureLatencyError {
    CommandError(String),
    ParseError(String),
    AvgLatencyNotFound,
    DefaultGatewayError,
    Other(String),
}

impl MeasureLatencyError {
    /// A human-readable description of the fault.
    pub fn message(&self) -> (r: String)
        ensures
            self matches MeasureLatencyError::CommandError(e) ==> r@
                == "Failed to execute command: "@ + e@,
            self matches MeasureLatencyError::ParseError(e) ==> r@
                == "Failed to parse output: "@ + e@,
            self matches MeasureLatencyError::AvgLatencyNotFound ==> r@
                == "Average latency not found in output"@,
            self matches MeasureLatencyError::DefaultGatewayError ==> r@
                == "Failed to get default gateway"@,
            self matches MeasureLatencyError::Other(e) ==> r@ == "Error occurred: "@ + e@,
    {
        match self {
            MeasureLatencyError::CommandError(e) => String::from_str(
                "Failed to execute command: ",
            ).concat(e.as_str()),
            MeasureLatencyError::ParseError(e) => String::from_str(
                "Failed to parse output: ",
            ).concat(e.as_str()),
            MeasureLatencyError::AvgLatencyNotFound => String::from_str(
                "Average latency not found in output",
            ),
            MeasureLatencyError::DefaultGatewayError => String::from_str(
                "Failed to get default gateway",
            ),
            MeasureLatencyError::Other(e) => String::from_str("Error occurred: ").concat(
                e.as_str(),
            ),
        }
    }
}

/// A fault while relaying change notifications.
#[derive(Debug, Clone, PartialEq, Eq)]
pub enum SendError {
    NetworkError(String),
    IoError(String),
}

impl SendError {
    /// A human-readable description of the fault.
    pub fn message(&self) -> (r: String)
        ensures
            self matches SendError::NetworkError(e) ==> r@ == "Network error: "@ + e@,
            self matches SendError::IoError(e) ==> r@ == "I/O error: "@ + e@,
    {
        match self {
            SendError::NetworkError(e) => String::from_str("Network error: ").concat(e.as_str()),
            SendError::IoError(e) => String::from_str("I/O error: ").concat(e.as_str()),
        }
    }
}

} // verus!
