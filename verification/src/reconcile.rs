//! The watch reconciler: keeps the set of installed filesystem watches in
//! step with the registry.
//!
//! A reconciliation cycle first computes the minimal delta between the
//! desired watches (the registry's linked paths) and the watched set, and
//! then applies it. Installing a watch may fail per path; a failed install
//! leaves that one path outside the watched set without blocking the others,
//! while entries to be removed are always evicted, even when removing the
//! underlying watch failed.

use vstd::prelude::*;
use vstd::seq_lib::group_seq_properties;

use crate::types::copy_linked_paths;
use crate::types::LinkedPath;
use crate::types::LinkedPathV;

verus! {

/// The linked paths that remain after dropping every member of the excluded
/// set.
pub open spec fn except(lps: Seq<LinkedPathV>, excl: Set<LinkedPathV>) -> Seq<LinkedPathV>
    decreases lps.len(),
{
    if lps.len() == 0 {
        Seq::empty()
    } else if excl.contains(lps.last()) {
        except(lps.drop_last(), excl)
    } else {
        except(lps.drop_last(), excl).push(lps.last())
    }
}

/// The first occurrence of each desired linked path that is not watched
/// yet, in the order the registry lists them.
pub open spec fn fresh_entries(desired: Seq<LinkedPathV>, watched: Set<LinkedPathV>) -> Seq<
    LinkedPathV,
>
    decreases desired.len(),
{
    if desired.len() == 0 {
        Seq::empty()
    } else {
        let rest = fresh_entries(desired.drop_last(), watched);
        if watched.contains(desired.last()) || desired.drop_last().contains(desired.last()) {
            rest
        } else {
            rest.push(desired.last())
        }
    }
}

/// The entries whose watch installation succeeded, in order.
pub open spec fn kept_added(to_add: Seq<LinkedPathV>, ok: Seq<bool>) -> Seq<LinkedPathV>
    decreases to_add.len(),
{
    if to_add.len() == 0 || ok.len() == 0 {
        Seq::empty()
    } else if ok.last() {
        kept_added(to_add.drop_last(), ok.drop_last()).push(to_add.last())
    } else {
        kept_added(to_add.drop_last(), ok.drop_last())
    }
}

/// The entries whose watch installation failed, in order.
pub open spec fn dropped_added(to_add: Seq<LinkedPathV>, ok: Seq<bool>) -> Seq<LinkedPathV>
    decreases to_add.len(),
{
    if to_add.len() == 0 || ok.len() == 0 {
        Seq::empty()
    } else if ok.last() {
        dropped_added(to_add.drop_last(), ok.drop_last())
    } else {
        dropped_added(to_add.drop_last(), ok.drop_last()).push(to_add.last())
    }
}

/// The set of linked paths for which an OS watch is currently installed.
/// The vector never lists an entry twice.
pub struct WatchedSet {
    pub paths: Vec<LinkedPath>,
}

impl View for WatchedSet {
    type V = Set<LinkedPathV>;

    open spec fn view(&self) -> Set<LinkedPathV> {
        self.paths.deep_view().to_set()
    }
}

impl WatchedSet {
    /// The watched set's invariant: no entry is listed twice.
    pub open spec fn wf(&self) -> bool {
        self.paths.deep_view().no_duplicates()
    }

    /// A fresh reconciler starts with nothing watched.
    pub fn new() -> (r: WatchedSet)
        ensures
            r@ == Set::<LinkedPathV>::empty(),
            r.wf(),
    {
        let r = WatchedSet { paths: Vec::new() };
        proof {
            assert(r.paths.deep_view() =~= Seq::<LinkedPathV>::empty());
            assert(r@ =~= Set::<LinkedPathV>::empty());
        }
        r
    }

    /// Whether a watch is installed for the given linked path.
    pub fn contains(&self, lp: &LinkedPath) -> (r: bool)
        ensures
            r == self@.contains(lp@),
    {
        vec_contains(&self.paths, lp)
    }

    /// How many linked paths are watched.
    pub fn count(&self) -> (r: usize)
        requires
            self.wf(),
        ensures
            r == self@.len(),
    {
        proof {
            self.paths.deep_view().unique_seq_to_set();
        }
        self.paths.len()
    }

    /// The watched linked paths, as a copy.
    pub fn watched_paths(&self) -> (r: Vec<LinkedPath>)
        ensures
            r.deep_view() == self.paths.deep_view(),
    {
        copy_linked_paths(&self.paths)
    }
}

/// Whether some entry of the vector equals the given linked path.
fn vec_contains(v: &Vec<LinkedPath>, lp: &LinkedPath) -> (r: bool)
    ensures
        r == v.deep_view().contains(lp@),
{
    let mut i: usize = 0;
    while i < v.len()
        invariant
            i <= v.len(),
            forall|j: int| 0 <= j < i ==> v.deep_view()[j] != lp@,
        decreases v.len() - i,
    {
        if v[i].same_as(lp) {
            assert(v.deep_view()[i as int] == lp@);
            return true;
        }
        i = i + 1;
    }
    false
}

/// Whether some entry of the vector before position `k` equals the given
/// linked path.
fn vec_prefix_contains(v: &Vec<LinkedPath>, k: usize, lp: &LinkedPath) -> (r: bool)
    requires
        k <= v@.len(),
    ensures
        r == v.deep_view().subrange(0, k as int).contains(lp@),
{
    let mut i: usize = 0;
    while i < k
        invariant
            i <= k <= v@.len(),
            forall|j: int| 0 <= j < i ==> v.deep_view()[j] != lp@,
        decreases k - i,
    {
        if v[i].same_as(lp) {
            assert(v.deep_view().subrange(0, k as int)[i as int] == lp@);
            return true;
        }
        i = i + 1;
    }
    proof {
        assert forall|j: int| 0 <= j < k implies v.deep_view().subrange(0, k as int)[j] != lp@ by {
            assert(v.deep_view().subrange(0, k as int)[j] == v.deep_view()[j]);
        }
    }
    false
}

/// The minimal delta of one reconciliation cycle: the desired entries that
/// are not watched yet, and the watched entries that are no longer desired.
pub struct WatchDelta {
    pub to_add: Vec<LinkedPath>,
    pub to_remove: Vec<LinkedPath>,
}

/// Computes the delta between the watched set and the registry's current
/// linked paths: `to_add` lists each desired entry that is not watched
/// (once, in registry order), and `to_remove` lists each watched entry that
/// is no longer desired.
pub fn compute_watch_delta(watched: &WatchedSet, desired: &Vec<LinkedPath>) -> (d: WatchDelta)
    ensures
        d.to_add.deep_view() == fresh_entries(desired.deep_view(), watched@),
        d.to_remove.deep_view() == except(watched.paths.deep_view(), desired.deep_view().to_set()),
{
    let ghost want = desired.deep_view();
    let mut to_add: Vec<LinkedPath> = Vec::new();
    let mut i: usize = 0;
    while i < desired.len()
        invariant
            i <= desired.len(),
            desired.deep_view() == want,
            to_add.deep_view() == fresh_entries(want.subrange(0, i as int), watched@),
        decreases desired.len() - i,
    {
        proof {
            assert(want.subrange(0, i + 1).drop_last() =~= want.subrange(0, i as int));
            assert(want.subrange(0, i + 1).last() == want[i as int]);
        }
        if !watched.contains(&desired[i]) && !vec_prefix_contains(desired, i, &desired[i]) {
            to_add.push(desired[i].duplicate());
        }
        proof {
            assert(to_add.deep_view() =~= fresh_entries(want.subrange(0, i + 1), watched@));
        }
        i = i + 1;
    }
    proof {
        assert(want.subrange(0, want.len() as int) =~= want);
    }

    let ghost have = watched.paths.deep_view();
    let mut to_remove: Vec<LinkedPath> = Vec::new();
    let mut i: usize = 0;
    while i < watched.paths.len()
        invariant
            i <= watched.paths.len(),
            watched.paths.deep_view() == have,
            desired.deep_view() == want,
            to_remove.deep_view() == except(have.subrange(0, i as int), want.to_set()),
        decreases watched.paths.len() - i,
    {
        proof {
            assert(have.subrange(0, i + 1).drop_last() =~= have.subrange(0, i as int));
            assert(have.subrange(0, i + 1).last() == have[i as int]);
        }
        if !vec_contains(desired, &watched.paths[i]) {
            to_remove.push(watched.paths[i].duplicate());
        }
        proof {
            assert(to_remove.deep_view() =~= except(have.subrange(0, i + 1), want.to_set()));
        }
        i = i + 1;
    }
    proof {
        assert(have.subrange(0, have.len() as int) =~= have);
    }
    WatchDelta { to_add, to_remove }
}

/// Applies the delta to the watched set, given the outcome of each watch
/// installation: every `to_remove` entry is evicted, and each `to_add` entry
/// enters the watched set exactly when its installation succeeded. Returns
/// the successfully added entries, for publication on the change channel.
pub fn apply_watch_results(
    watched: &mut WatchedSet,
    delta: &WatchDelta,
    add_ok: &Vec<bool>,
) -> (added: Vec<LinkedPath>)
    requires
        old(watched).wf(),
        add_ok@.len() == delta.to_add@.len(),
        delta.to_add.deep_view().no_duplicates(),
        forall|k: int|
            0 <= k < delta.to_add@.len() ==> !old(watched)@.contains(
                delta.to_add.deep_view()[k],
            ),
    ensures
        final(watched).paths.deep_view() == except(
            old(watched).paths.deep_view(),
            delta.to_remove.deep_view().to_set(),
        ) + kept_added(delta.to_add.deep_view(), add_ok@),
        added.deep_view() == kept_added(delta.to_add.deep_view(), add_ok@),
        final(watched).wf(),
{
    let ghost have = watched.paths.deep_view();
    let ghost removals = delta.to_remove.deep_view().to_set();
    let ghost adds = delta.to_add.deep_view();

    // Eviction: keep only the watched entries that are not to be removed.
    let mut kept: Vec<LinkedPath> = Vec::new();
    let mut i: usize = 0;
    while i < watched.paths.len()
        invariant
            i <= watched.paths.len(),
            watched.paths.deep_view() == have,
            delta.to_remove.deep_view().to_set() == removals,
            kept.deep_view() == except(have.subrange(0, i as int), removals),
        decreases watched.paths.len() - i,
    {
        proof {
            assert(have.subrange(0, i + 1).drop_last() =~= have.subrange(0, i as int));
            assert(have.subrange(0, i + 1).last() == have[i as int]);
        }
        if !vec_contains(&delta.to_remove, &watched.paths[i]) {
            kept.push(watched.paths[i].duplicate());
        }
        proof {
            assert(kept.deep_view() =~= except(have.subrange(0, i + 1), removals));
        }
        i = i + 1;
    }
    proof {
        assert(have.subrange(0, have.len() as int) =~= have);
    }

    // Installation: each entry whose watch was installed enters the set.
    let ghost surviving = except(have, removals);
    let mut added: Vec<LinkedPath> = Vec::new();
    let mut i: usize = 0;
    while i < delta.to_add.len()
        invariant
            i <= delta.to_add.len(),
            delta.to_add.deep_view() == adds,
            add_ok@.len() == adds.len(),
            kept.deep_view() == surviving + kept_added(
                adds.subrange(0, i as int),
                add_ok@.subrange(0, i as int),
            ),
            added.deep_view() == kept_added(
                adds.subrange(0, i as int),
                add_ok@.subrange(0, i as int),
            ),
        decreases delta.to_add.len() - i,
    {
        let ghost k0 = kept.deep_view();
        let ghost a0 = added.deep_view();
        proof {
            assert(adds.subrange(0, i + 1).drop_last() =~= adds.subrange(0, i as int));
            assert(add_ok@.subrange(0, i + 1).drop_last() =~= add_ok@.subrange(0, i as int));
            assert(adds.subrange(0, i + 1).last() == adds[i as int]);
            assert(add_ok@.subrange(0, i + 1).last() == add_ok@[i as int]);
        }
        if add_ok[i] {
            kept.push(delta.to_add[i].duplicate());
            added.push(delta.to_add[i].duplicate());
            proof {
                assert(kept.deep_view() =~= k0.push(adds[i as int]));
                assert(added.deep_view() =~= a0.push(adds[i as int]));
            }
        }
        proof {
            assert(kept.deep_view() =~= surviving + kept_added(
                adds.subrange(0, i + 1),
                add_ok@.subrange(0, i + 1),
            ));
            assert(added.deep_view() =~= kept_added(
                adds.subrange(0, i + 1),
                add_ok@.subrange(0, i + 1),
            ));
        }
        i = i + 1;
    }
    proof {
        assert(adds.subrange(0, adds.len() as int) =~= adds);
        assert(add_ok@.subrange(0, add_ok@.len() as int) =~= add_ok@);
    }
    watched.paths = kept;
    proof {
        lemma_apply_preserves_no_dup(have, removals, adds, add_ok@);
    }
    added
}

/// Whether any of the event paths names the registry's own backing file:
/// only such events trigger a reconciliation cycle. Both sides are expected
/// in canonical form.
pub fn config_event_hits(event_paths: &Vec<String>, config_path: &String) -> (r: bool)
    ensures
        r == (exists|i: int| 0 <= i < event_paths@.len() && event_paths@[i]@ == config_path@),
{
    let mut i: usize = 0;
    while i < event_paths.len()
        invariant
            i <= event_paths.len(),
            forall|j: int| 0 <= j < i ==> event_paths@[j]@ != config_path@,
        decreases event_paths.len() - i,
    {
        if event_paths[i] == *config_path {
            return true;
        }
        i = i + 1;
    }
    false
}

/// An entry survives the exclusion exactly when it stood in the sequence
/// and is not excluded.
pub proof fn lemma_except_membership(lps: Seq<LinkedPathV>, excl: Set<LinkedPathV>)
    ensures
        forall|x: LinkedPathV| #[trigger] except(lps, excl).contains(x) <==> lps.contains(x)
            && !excl.contains(x),
    decreases lps.len(),
{
    broadcast use group_seq_properties;

    if lps.len() > 0 {
        lemma_except_membership(lps.drop_last(), excl);
        assert(lps =~= lps.drop_last().push(lps.last()));
        if !excl.contains(lps.last()) {
            assert(except(lps, excl) =~= except(lps.drop_last(), excl).push(lps.last()));
        }
    }
}

/// Exclusion preserves freedom from duplicates.
pub proof fn lemma_except_no_dup(lps: Seq<LinkedPathV>, excl: Set<LinkedPathV>)
    requires
        lps.no_duplicates(),
    ensures
        except(lps, excl).no_duplicates(),
    decreases lps.len(),
{
    broadcast use group_seq_properties;

    if lps.len() > 0 {
        lemma_except_no_dup(lps.drop_last(), excl);
        lemma_except_membership(lps.drop_last(), excl);
        if !excl.contains(lps.last()) {
            let prior = except(lps.drop_last(), excl);
            assert(!lps.drop_last().contains(lps.last()));
            assert(!prior.contains(lps.last()));
            assert(except(lps, excl) == prior.push(lps.last()));
            assert forall|i: int, j: int|
                0 <= i < j < prior.push(lps.last()).len() implies prior.push(lps.last())[i]
                != prior.push(lps.last())[j] by {
                if j == prior.len() {
                    assert(prior.contains(prior[i]));
                }
            }
        }
    }
}

/// A fresh entry is a desired one that is not watched, and each appears only
/// once.
pub proof fn lemma_fresh_entries_membership(desired: Seq<LinkedPathV>, watched: Set<LinkedPathV>)
    ensures
        forall|x: LinkedPathV| #[trigger] fresh_entries(desired, watched).contains(x) <==>
            desired.contains(x) && !watched.contains(x),
    decreases desired.len(),
{
    broadcast use group_seq_properties;

    if desired.len() > 0 {
        lemma_fresh_entries_membership(desired.drop_last(), watched);
        assert(desired =~= desired.drop_last().push(desired.last()));
        let rest = fresh_entries(desired.drop_last(), watched);
        if !(watched.contains(desired.last()) || desired.drop_last().contains(desired.last())) {
            assert(fresh_entries(desired, watched) =~= rest.push(desired.last()));
        }
    }
}

/// The fresh entries of a cycle never list an entry twice.
pub proof fn lemma_fresh_entries_no_dup(desired: Seq<LinkedPathV>, watched: Set<LinkedPathV>)
    ensures
        fresh_entries(desired, watched).no_duplicates(),
    decreases desired.len(),
{
    if desired.len() > 0 {
        lemma_fresh_entries_no_dup(desired.drop_last(), watched);
        lemma_fresh_entries_membership(desired.drop_last(), watched);
        let rest = fresh_entries(desired.drop_last(), watched);
        if !(watched.contains(desired.last()) || desired.drop_last().contains(desired.last())) {
            assert(!rest.contains(desired.last()));
            assert forall|i: int, j: int|
                0 <= i < j < rest.push(desired.last()).len() implies rest.push(desired.last())[i]
                != rest.push(desired.last())[j] by {
                if j == rest.len() {
                    assert(rest.contains(rest[i]));
                }
            }
        }
    }
}

/// With no duplicate entries to add, the successfully added entries are
/// exactly those to add that did not fail.
pub proof fn lemma_kept_dropped_membership(to_add: Seq<LinkedPathV>, ok: Seq<bool>)
    requires
        to_add.no_duplicates(),
        ok.len() == to_add.len(),
    ensures
        forall|x: LinkedPathV| #[trigger] kept_added(to_add, ok).contains(x) <==> to_add.contains(
            x,
        ) && !dropped_added(to_add, ok).contains(x),
        forall|x: LinkedPathV| #[trigger] dropped_added(to_add, ok).contains(x) ==>
            to_add.contains(x),
    decreases to_add.len(),
{
    broadcast use group_seq_properties;

    if to_add.len() > 0 {
        lemma_kept_dropped_membership(to_add.drop_last(), ok.drop_last());
        assert(to_add =~= to_add.drop_last().push(to_add.last()));
        assert(!to_add.drop_last().contains(to_add.last()));
        let k = kept_added(to_add.drop_last(), ok.drop_last());
        let d = dropped_added(to_add.drop_last(), ok.drop_last());
        if ok.last() {
            assert(kept_added(to_add, ok) =~= k.push(to_add.last()));
            assert(dropped_added(to_add, ok) == d);
        } else {
            assert(kept_added(to_add, ok) == k);
            assert(dropped_added(to_add, ok) =~= d.push(to_add.last()));
        }
    }
}

/// Applying a cycle's results never introduces a duplicate watch.
proof fn lemma_apply_preserves_no_dup(
    have: Seq<LinkedPathV>,
    removals: Set<LinkedPathV>,
    adds: Seq<LinkedPathV>,
    ok: Seq<bool>,
)
    requires
        have.no_duplicates(),
        adds.no_duplicates(),
        ok.len() == adds.len(),
        forall|k: int| 0 <= k < adds.len() ==> !have.to_set().contains(#[trigger] adds[k]),
    ensures
        (except(have, removals) + kept_added(adds, ok)).no_duplicates(),
{
    broadcast use group_seq_properties;

    let survivors = except(have, removals);
    let newcomers = kept_added(adds, ok);
    lemma_except_no_dup(have, removals);
    lemma_except_membership(have, removals);
    lemma_kept_dropped_membership(adds, ok);
    lemma_kept_no_dup(adds, ok);
    let joined = survivors + newcomers;
    assert forall|i: int, j: int| 0 <= i < j < joined.len() implies joined[i] != joined[j] by {
        if i < survivors.len() && j >= survivors.len() {
            assert(joined[i] == survivors[i]);
            assert(joined[j] == newcomers[j - survivors.len()]);
            assert(survivors.contains(survivors[i]));
            assert(newcomers.contains(newcomers[j - survivors.len()]));
            assert(have.contains(survivors[i]));
            let k = choose|k: int| 0 <= k < have.len() && have[k] == survivors[i];
            assert(have.to_set().contains(survivors[i]));
            let m = choose|m: int| 0 <= m < adds.len() && adds[m] == newcomers[j - survivors.len()];
        }
    }
}

/// The successfully added entries of a cycle never list an entry twice.
proof fn lemma_kept_no_dup(to_add: Seq<LinkedPathV>, ok: Seq<bool>)
    requires
        to_add.no_duplicates(),
        ok.len() == to_add.len(),
    ensures
        kept_added(to_add, ok).no_duplicates(),
    decreases to_add.len(),
{
    broadcast use group_seq_properties;

    if to_add.len() > 0 {
        lemma_kept_no_dup(to_add.drop_last(), ok.drop_last());
        lemma_kept_dropped_membership(to_add.drop_last(), ok.drop_last());
        assert(!to_add.drop_last().contains(to_add.last()));
        let k = kept_added(to_add.drop_last(), ok.drop_last());
        if ok.last() {
            assert(!k.contains(to_add.last()));
            assert forall|i: int, j: int|
                0 <= i < j < k.push(to_add.last()).len() implies k.push(to_add.last())[i] != k.push(
                to_add.last(),
            )[j] by {
                if j == k.len() {
                    assert(k.contains(k[i]));
                }
            }
        }
    }
}

/// The law of one reconciliation cycle: after computing the delta against
/// the registry's linked paths and applying it, the watched set equals the
/// desired set restricted to the paths whose watch installation succeeded —
/// and equals the desired set itself when every installation succeeded.
pub proof fn lemma_reconcile_cycle(watched: Seq<LinkedPathV>, desired: Seq<LinkedPathV>, ok: Seq<
    bool,
>)
    requires
        watched.no_duplicates(),
        ok.len() == fresh_entries(desired, watched.to_set()).len(),
    ensures
        ({
            let to_add = fresh_entries(desired, watched.to_set());
            let to_remove = except(watched, desired.to_set());
            let after = except(watched, to_remove.to_set()) + kept_added(to_add, ok);
            &&& after.to_set() == desired.to_set().difference(
                dropped_added(to_add, ok).to_set(),
            )
            &&& (forall|k: int| 0 <= k < ok.len() ==> ok[k]) ==> after.to_set()
                == desired.to_set()
        }),
{
    broadcast use group_seq_properties;

    let to_add = fresh_entries(desired, watched.to_set());
    let to_remove = except(watched, desired.to_set());
    let after = except(watched, to_remove.to_set()) + kept_added(to_add, ok);
    lemma_fresh_entries_membership(desired, watched.to_set());
    lemma_fresh_entries_no_dup(desired, watched.to_set());
    lemma_except_membership(watched, desired.to_set());
    lemma_except_membership(watched, to_remove.to_set());
    lemma_kept_dropped_membership(to_add, ok);
    assert forall|x: LinkedPathV| #[trigger] after.to_set().contains(x) <==>
        desired.to_set().contains(x) && !dropped_added(to_add, ok).to_set().contains(x) by {
        assert(after.contains(x) <==> except(watched, to_remove.to_set()).contains(x)
            || kept_added(to_add, ok).contains(x));
        if dropped_added(to_add, ok).contains(x) {
            assert(to_add.contains(x));
            assert(!watched.contains(x));
            assert(!except(watched, to_remove.to_set()).contains(x));
            assert(!kept_added(to_add, ok).contains(x));
        }
    }
    assert(after.to_set() =~= desired.to_set().difference(dropped_added(to_add, ok).to_set()));
    if forall|k: int| 0 <= k < ok.len() ==> ok[k] {
        assert forall|x: LinkedPathV| !(#[trigger] dropped_added(to_add, ok).contains(x)) by {
            lemma_dropped_all_ok(to_add, ok);
        }
        assert(dropped_added(to_add, ok).to_set() =~= Set::<LinkedPathV>::empty());
        assert(after.to_set() =~= desired.to_set());
    }
}

/// When every installation succeeded, nothing was dropped.
proof fn lemma_dropped_all_ok(to_add: Seq<LinkedPathV>, ok: Seq<bool>)
    requires
        ok.len() == to_add.len(),
        forall|k: int| 0 <= k < ok.len() ==> ok[k],
    ensures
        dropped_added(to_add, ok) == Seq::<LinkedPathV>::empty(),
    decreases to_add.len(),
{
    if to_add.len() > 0 {
        assert(ok.last());
        lemma_dropped_all_ok(to_add.drop_last(), ok.drop_last());
    }
}

} // verus!
