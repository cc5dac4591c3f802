//! The linked-path registry: a document holding the linked paths and the
//! networks, with the mutating operations on it.
//!
//! Every mutating operation works on the whole document, so that the section
//! it does not touch is preserved unchanged; validation failures are returned
//! as ordinary human-readable outcome messages, never as errors.

use vstd::prelude::*;
use vstd::string::*;

use crate::types::copy_linked_paths;
use crate::types::FileError;
use crate::types::LinkedPath;
use crate::types::LinkedPathV;
use crate::types::LocalNetwork;
use crate::types::Network;
use crate::types::NetworkV;

verus! {

/// The registry's backing document: the ordered sequence of linked paths and
/// the ordered sequence of networks.
pub struct RegistryDoc {
    pub linked_paths: Vec<LinkedPath>,
    pub networks: Vec<Network>,
}

/// The mathematical value of a `RegistryDoc`.
pub ghost struct RegistryDocV {
    pub linked_paths: Seq<LinkedPathV>,
    pub networks: Seq<NetworkV>,
}

impl View for RegistryDoc {
    type V = RegistryDocV;

    open spec fn view(&self) -> RegistryDocV {
        RegistryDocV {
            linked_paths: self.linked_paths.deep_view(),
            networks: self.networks.deep_view(),
        }
    }
}

/// True when some linked path in the sequence carries the given name.
pub open spec fn has_name(lps: Seq<LinkedPathV>, name: Seq<char>) -> bool {
    exists|i: int| 0 <= i < lps.len() && lps[i].name == name
}

/// True when no two linked paths in the sequence share a name: the
/// registry's uniqueness invariant.
pub open spec fn names_unique(lps: Seq<LinkedPathV>) -> bool {
    forall|i: int, j: int| 0 <= i < j < lps.len() ==> lps[i].name != lps[j].name
}

/// The linked paths that remain after removing every entry with the given
/// name.
pub open spec fn remove_named(lps: Seq<LinkedPathV>, name: Seq<char>) -> Seq<LinkedPathV>
    decreases lps.len(),
{
    if lps.len() == 0 {
        Seq::empty()
    } else if lps.last().name == name {
        remove_named(lps.drop_last(), name)
    } else {
        remove_named(lps.drop_last(), name).push(lps.last())
    }
}

/// The number of entries in the sequence equal to the given linked path.
pub open spec fn count_entry(lps: Seq<LinkedPathV>, entry: LinkedPathV) -> nat
    decreases lps.len(),
{
    if lps.len() == 0 {
        0
    } else if lps.last() == entry {
        count_entry(lps.drop_last(), entry) + 1
    } else {
        count_entry(lps.drop_last(), entry)
    }
}

/// The networks that remain after removing every network of the same
/// transport kind and name as the given one.
pub open spec fn remove_network_entries(ns: Seq<NetworkV>, target: NetworkV) -> Seq<NetworkV>
    decreases ns.len(),
{
    if ns.len() == 0 {
        Seq::empty()
    } else if ns.last().same_kind(target) && ns.last().name() == target.name() {
        remove_network_entries(ns.drop_last(), target)
    } else {
        remove_network_entries(ns.drop_last(), target).push(ns.last())
    }
}

impl RegistryDoc {
    /// The registry's invariant: linked-path names are unique.
    pub open spec fn wf(&self) -> bool {
        names_unique(self@.linked_paths)
    }
}

/// Assembles a registry document from the two sub-collections of a parsed
/// backing file; a document missing either expected sub-collection is
/// reported as a distinct fault, not treated as empty.
pub fn registry_from_sections(
    linked_paths: Option<Vec<LinkedPath>>,
    networks: Option<Vec<Network>>,
) -> (r: Result<RegistryDoc, FileError>)
    ensures
        match r {
            Ok(doc) => (linked_paths matches Some(lps) && doc@.linked_paths == lps.deep_view())
                && (networks matches Some(ns) && doc@.networks == ns.deep_view()),
            Err(e) => (linked_paths is None || networks is None) && (e matches
                FileError::MissingLinkedPathsError),
        },
        r is Ok <==> linked_paths is Some && networks is Some,
{
    match (linked_paths, networks) {
        (Some(lps), Some(ns)) => Ok(RegistryDoc { linked_paths: lps, networks: ns }),
        _ => Err(FileError::MissingLinkedPathsError),
    }
}

/// Whether some entry of the vector carries the given name.
fn contains_name(lps: &Vec<LinkedPath>, name: &String) -> (r: bool)
    ensures
        r == has_name(lps.deep_view(), name@),
{
    let mut i: usize = 0;
    while i < lps.len()
        invariant
            i <= lps.len(),
            forall|j: int| 0 <= j < i ==> lps.deep_view()[j].name != name@,
        decreases lps.len() - i,
    {
        if lps[i].name == *name {
            assert(lps.deep_view()[i as int].name == name@);
            return true;
        }
        i = i + 1;
    }
    false
}

/// Links a directory under a display name: validates that the name and the
/// path are non-empty and that the name is not already taken, and on success
/// appends the new linked path, leaving the networks untouched. A validation
/// failure leaves the document unchanged and is reported in the returned
/// message.
pub fn link_directory(doc: &mut RegistryDoc, path: String, name: String) -> (r: String)
    ensures
        name@.len() == 0 ==> r@ == "Name your linked path"@ && final(doc)@ == old(doc)@,
        name@.len() > 0 && path@.len() == 0 ==> r@ == "Directory not selected"@ && final(doc)@
            == old(doc)@,
        name@.len() > 0 && path@.len() > 0 && has_name(old(doc)@.linked_paths, name@) ==> r@
            == "Linked path with this name already exists"@ && final(doc)@ == old(doc)@,
        name@.len() > 0 && path@.len() > 0 && !has_name(old(doc)@.linked_paths, name@) ==> {
            &&& r@ == "Directory linked successfully"@
            &&& final(doc)@.linked_paths == old(doc)@.linked_paths.push(
                LinkedPathV { name: name@, path: path@ },
            )
            &&& final(doc)@.networks == old(doc)@.networks
        },
        old(doc).wf() ==> final(doc).wf(),
{
    if name.as_str().is_empty() {
        return String::from_str("Name your linked path");
    }
    if path.as_str().is_empty() {
        return String::from_str("Directory not selected");
    }
    if contains_name(&doc.linked_paths, &name) {
        return String::from_str("Linked path with this name already exists");
    }
    let ghost prior = doc@.linked_paths;
    doc.linked_paths.push(LinkedPath { name, path });
    proof {
        assert(doc@.linked_paths =~= prior.push(LinkedPathV { name: name@, path: path@ }));
        if names_unique(prior) {
            assert forall|i: int, j: int|
                0 <= i < j < doc@.linked_paths.len() implies doc@.linked_paths[i].name
                != doc@.linked_paths[j].name by {
                if j == doc@.linked_paths.len() - 1 {
                    assert(!has_name(prior, name@));
                    assert(prior[i].name != name@);
                }
            }
        }
    }
    String::from_str("Directory linked successfully")
}

/// Unlinks every entry carrying the given name, leaving the networks
/// untouched; unlinking an absent name is a no-op reported as success.
pub fn unlink_directory(doc: &mut RegistryDoc, path_name: String) -> (r: String)
    ensures
        r@ == "Directory removed successfully"@,
        final(doc)@.linked_paths == remove_named(old(doc)@.linked_paths, path_name@),
        final(doc)@.networks == old(doc)@.networks,
        old(doc).wf() ==> final(doc).wf(),
{
    let ghost all = doc@.linked_paths;
    let mut kept: Vec<LinkedPath> = Vec::new();
    let mut i: usize = 0;
    while i < doc.linked_paths.len()
        invariant
            i <= doc.linked_paths.len(),
            doc.linked_paths.deep_view() == all,
            kept.deep_view() == remove_named(all.subrange(0, i as int), path_name@),
        decreases doc.linked_paths.len() - i,
    {
        proof {
            assert(all.subrange(0, i + 1).drop_last() =~= all.subrange(0, i as int));
            assert(all.subrange(0, i + 1).last() == all[i as int]);
        }
        if doc.linked_paths[i].name == path_name {
            // dropped
        } else {
            kept.push(doc.linked_paths[i].duplicate());
        }
        proof {
            assert(kept.deep_view() =~= remove_named(all.subrange(0, i + 1), path_name@));
        }
        i = i + 1;
    }
    proof {
        assert(all.subrange(0, all.len() as int) =~= all);
    }
    doc.linked_paths = kept;
    proof {
        if names_unique(all) {
            lemma_remove_named_no_dup(all, path_name@);
        }
    }
    String::from_str("Directory removed successfully")
}

/// Returns the registry's current linked paths, as a copy of the whole
/// sequence.
pub fn get_linked_paths(doc: &RegistryDoc) -> (r: Vec<LinkedPath>)
    ensures
        r.deep_view() == doc@.linked_paths,
{
    copy_linked_paths(&doc.linked_paths)
}

/// Creates a local network grouping the given linked paths under a name:
/// validates that the name is non-empty and that at least one path was
/// chosen, and on success appends the network with the server's fixed port,
/// leaving the linked paths untouched.
pub fn create_local_network(
    doc: &mut RegistryDoc,
    name: String,
    linked_paths: Vec<LinkedPath>,
) -> (r: String)
    ensures
        name@.len() == 0 ==> r@ == "Name your network"@ && final(doc)@ == old(doc)@,
        name@.len() > 0 && linked_paths@.len() == 0 ==> r@ == "Paths not selected"@ && final(doc)@
            == old(doc)@,
        name@.len() > 0 && linked_paths@.len() > 0 ==> {
            &&& r@ == "Network created successfully"@
            &&& final(doc)@.networks == old(doc)@.networks.push(
                NetworkV::Local {
                    name: name@,
                    port: 3030,
                    linked_paths: linked_paths.deep_view(),
                },
            )
            &&& final(doc)@.linked_paths == old(doc)@.linked_paths
        },
{
    if name.as_str().is_empty() {
        return String::from_str("Name your network");
    }
    if linked_paths.len() == 0 {
        return String::from_str("Paths not selected");
    }
    let ghost prior = doc@.networks;
    doc.networks.push(Network::LocalNetwork(LocalNetwork { name, port: 3030, linked_paths }));
    proof {
        assert(doc@.networks =~= prior.push(doc.networks@.last()@));
    }
    String::from_str("Network created successfully")
}

/// Removes every network of the same transport kind and name as the given
/// one, leaving the linked paths untouched; removing an absent network is a
/// no-op reported as success.
pub fn remove_network(doc: &mut RegistryDoc, network_to_remove: Network) -> (r: String)
    ensures
        r@ == "Directory removed successfully"@,
        final(doc)@.networks == remove_network_entries(old(doc)@.networks, network_to_remove@),
        final(doc)@.linked_paths == old(doc)@.linked_paths,
{
    let ghost all = doc@.networks;
    let ghost target = network_to_remove@;
    let mut kept: Vec<Network> = Vec::new();
    let mut i: usize = 0;
    while i < doc.networks.len()
        invariant
            i <= doc.networks.len(),
            doc.networks.deep_view() == all,
            target == network_to_remove@,
            kept.deep_view() == remove_network_entries(all.subrange(0, i as int), target),
        decreases doc.networks.len() - i,
    {
        proof {
            assert(all.subrange(0, i + 1).drop_last() =~= all.subrange(0, i as int));
            assert(all.subrange(0, i + 1).last() == all[i as int]);
        }
        let drop = match (&doc.networks[i], &network_to_remove) {
            (Network::LocalNetwork(n), Network::LocalNetwork(t)) => n.name == t.name,
            (Network::InternetNetwork(n), Network::InternetNetwork(t)) => n.name == t.name,
            (Network::DarkWebNetwork(n), Network::DarkWebNetwork(t)) => n.name == t.name,
            _ => false,
        };
        assert(drop == (all[i as int].same_kind(target) && all[i as int].name() == target.name()));
        if !drop {
            kept.push(doc.networks[i].duplicate());
        }
        proof {
            assert(kept.deep_view() =~= remove_network_entries(all.subrange(0, i + 1), target));
        }
        i = i + 1;
    }
    proof {
        assert(all.subrange(0, all.len() as int) =~= all);
    }
    doc.networks = kept;
    String::from_str("Directory removed successfully")
}

/// No entry of `remove_named(lps, name)` carries the removed name, and every
/// entry it keeps stands in the original sequence.
pub proof fn lemma_remove_named_membership(lps: Seq<LinkedPathV>, name: Seq<char>)
    ensures
        forall|x: LinkedPathV| #[trigger] remove_named(lps, name).contains(x) <==> lps.contains(x)
            && x.name != name,
    decreases lps.len(),
{
    if lps.len() > 0 {
        lemma_remove_named_membership(lps.drop_last(), name);
        assert forall|x: LinkedPathV| lps.contains(x) && x.name != name implies #[trigger]
            remove_named(lps, name).contains(x) by {
            let i = choose|i: int| 0 <= i < lps.len() && lps[i] == x;
            if i < lps.len() - 1 {
                assert(lps.drop_last()[i] == x);
                assert(lps.drop_last().contains(x));
                assert(remove_named(lps.drop_last(), name).contains(x));
                let j = choose|j: int|
                    0 <= j < remove_named(lps.drop_last(), name).len() && remove_named(
                        lps.drop_last(),
                        name,
                    )[j] == x;
                assert(remove_named(lps, name)[j] == x);
            } else {
                assert(remove_named(lps, name).last() == x);
            }
        }
        assert forall|x: LinkedPathV| #[trigger] remove_named(lps, name).contains(x) implies
            lps.contains(x) && x.name != name by {
            if remove_named(lps.drop_last(), name).contains(x) {
                assert(lps.drop_last().contains(x));
                let i = choose|i: int| 0 <= i < lps.drop_last().len() && lps.drop_last()[i] == x;
                assert(lps[i] == x);
            } else {
                assert(lps.last().name != name && x == lps.last());
                assert(lps[lps.len() - 1] == x);
            }
        }
    }
}

/// Removing a name preserves the uniqueness of the remaining names.
pub proof fn lemma_remove_named_no_dup(lps: Seq<LinkedPathV>, name: Seq<char>)
    requires
        names_unique(lps),
    ensures
        names_unique(remove_named(lps, name)),
    decreases lps.len(),
{
    if lps.len() > 0 {
        lemma_remove_named_no_dup(lps.drop_last(), name);
        lemma_remove_named_membership(lps.drop_last(), name);
        let out = remove_named(lps, name);
        if lps.last().name != name {
            let kept = remove_named(lps.drop_last(), name);
            assert forall|i: int, j: int| 0 <= i < j < out.len() implies out[i].name
                != out[j].name by {
                if j == out.len() - 1 {
                    assert(out[i] == kept[i]);
                    assert(kept.contains(kept[i]));
                    assert(lps.drop_last().contains(out[i]));
                    let k = choose|k: int|
                        0 <= k < lps.drop_last().len() && lps.drop_last()[k] == out[i];
                    assert(lps[k].name != lps[lps.len() - 1].name);
                }
            }
        }
    }
}

/// Unlinking a name that no entry carries leaves the sequence unchanged:
/// together with `lemma_remove_named_membership` this gives the idempotence
/// of unlinking.
pub proof fn lemma_remove_named_absent(lps: Seq<LinkedPathV>, name: Seq<char>)
    requires
        !has_name(lps, name),
    ensures
        remove_named(lps, name) == lps,
    decreases lps.len(),
{
    if lps.len() > 0 {
        assert forall|i: int| 0 <= i < lps.drop_last().len() implies lps.drop_last()[i].name
            != name by {
            assert(lps[i] == lps.drop_last()[i]);
        }
        lemma_remove_named_absent(lps.drop_last(), name);
        assert(lps[lps.len() - 1].name != name);
        assert(remove_named(lps, name) =~= lps);
    }
}

/// Unlinking is idempotent: removing a name a second time changes nothing,
/// so `unlink(x); unlink(x)` leaves the same registry as `unlink(x)` once.
pub proof fn lemma_unlink_idempotent(lps: Seq<LinkedPathV>, name: Seq<char>)
    ensures
        remove_named(remove_named(lps, name), name) == remove_named(lps, name),
{
    lemma_remove_named_membership(lps, name);
    let once = remove_named(lps, name);
    assert forall|i: int| 0 <= i < once.len() implies once[i].name != name by {
        assert(once.contains(once[i]));
    }
    assert(!has_name(once, name));
    lemma_remove_named_absent(once, name);
}

/// After linking a fresh, valid name, the registry holds exactly one entry
/// equal to the new linked path.
pub proof fn lemma_link_then_list_exactly_one(
    lps: Seq<LinkedPathV>,
    name: Seq<char>,
    path: Seq<char>,
)
    requires
        crate::linked_path_valid(name, path),
        !has_name(lps, name),
    ensures
        count_entry(lps.push(LinkedPathV { name, path }), LinkedPathV { name, path }) == 1,
{
    let entry = LinkedPathV { name, path };
    lemma_count_entry_absent(lps, entry);
    assert(lps.push(entry).drop_last() =~= lps);
    assert(lps.push(entry).last() == entry);
}

/// A sequence in which no entry carries the given linked path's name holds
/// no entry equal to it.
proof fn lemma_count_entry_absent(lps: Seq<LinkedPathV>, entry: LinkedPathV)
    requires
        !has_name(lps, entry.name),
    ensures
        count_entry(lps, entry) == 0,
    decreases lps.len(),
{
    if lps.len() > 0 {
        assert forall|i: int| 0 <= i < lps.drop_last().len() implies lps.drop_last()[i].name
            != entry.name by {
            assert(lps[i] == lps.drop_last()[i]);
        }
        lemma_count_entry_absent(lps.drop_last(), entry);
        assert(lps[lps.len() - 1].name != entry.name);
    }
}

} // verus!
