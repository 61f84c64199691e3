//! The storage engine: the key scheme, the retention policy, and the
//! queries that application code calls. Every operation reaches the backing
//! store through the backend that the engine was built with.

pub mod driver;

use crate::entries::{distinct_keys, distinct_labels, lemma_labels_of_distinct_keys};
use crate::release::sort::{is_newest, newest};
use crate::release::{Release, Status};
use crate::storage::driver::object::{answers, lemma_picked_is_exact, picked};
use crate::storage::driver::{Driver, DriverError};
use crate::text::{decimal, decimal_string, lemma_decimal_injective, lemma_decimal_is_digits};
use vstd::prelude::*;
use vstd::relations::{sorted_by, total_ordering};
use vstd::seq_lib::lemma_sorted_unique;
use vstd::string::StringExecFns;

verus! {

/// The prefix of every key: the name of this storage scheme.
pub const HELM_STORAGE_TYPE: &'static str = "sh.helm.release.v1";

/// How many versions of one release are kept.
#[derive(Clone, Copy, Debug, PartialEq, Eq, Structural)]
pub enum MaxHistory {
    NoLimit,
    Limit(usize),
}

/// The storage engine over a backend of type `T`.
pub struct Storage<T> {
    pub driver: T,
    max_history: MaxHistory,
}

/// The key of a release: the prefix, the name, and the version after a `v`,
/// joined by dots. It is also the name of the object that holds the release.
pub open spec fn key_of(name: Seq<char>, version: nat) -> Seq<char> {
    HELM_STORAGE_TYPE@ + seq!['.'] + name + seq!['.', 'v'] + decimal(version)
}

/// The labels that find every version of the release `name`.
pub open spec fn history_labels(name: Seq<char>) -> Seq<(Seq<char>, Seq<char>)> {
    seq![("name"@, name), ("owner"@, "helm"@)]
}

/// The labels that find the deployed versions of the release `name`.
pub open spec fn deployed_labels(name: Seq<char>) -> Seq<(Seq<char>, Seq<char>)> {
    seq![("name"@, name), ("owner"@, "helm"@), ("status"@, Status::Deployed.canonical())]
}

/// The versions of a list of releases, in the order of the list.
pub open spec fn versions_of(rels: Seq<Release>) -> Seq<usize> {
    rels.map_values(|rel: Release| rel.version)
}

/// The order of versions: as numbers.
pub open spec fn version_leq() -> spec_fn(usize, usize) -> bool {
    |a: usize, b: usize| a <= b
}

/// The versions in ascending order.
pub open spec fn ascending(versions: Seq<usize>) -> Seq<usize> {
    versions.sort_by(version_leq())
}

/// The versions that the retention policy removes from a history: none
/// where there is no limit or the history is within it, else the lowest
/// versions in ascending order, as many as the history exceeds the limit by.
pub open spec fn evictions(versions: Seq<usize>, max: MaxHistory) -> Seq<usize> {
    match max {
        MaxHistory::NoLimit => Seq::<usize>::empty(),
        MaxHistory::Limit(limit) => {
            if versions.len() <= limit {
                Seq::<usize>::empty()
            } else {
                ascending(versions).take(versions.len() - limit)
            }
        },
    }
}

/// What `last` and `last_deployed` make of the releases found: the error
/// `ReleaseNotExist` where there is none, else a release of the highest
/// version among them.
pub open spec fn latest_of(rels: Seq<Release>, r: Result<Release, DriverError>) -> bool {
    if rels.len() == 0 {
        r == Err::<Release, DriverError>(DriverError::ReleaseNotExist)
    } else {
        r matches Ok(rel) && is_newest(rels, rel)
    }
}

/// What `last` and `last_deployed` return for the outcome of their query:
/// its error where it failed, else the latest of the releases found.
pub open spec fn latest_outcome(
    found: Result<Vec<Release>, DriverError>,
    r: Result<Release, DriverError>,
) -> bool {
    match found {
        Ok(rels) => latest_of(rels@, r),
        Err(e) => r == Err::<Release, DriverError>(e),
    }
}

impl<T: Driver> Storage<T> {
    /// The backend that the engine was built with.
    pub closed spec fn backend(&self) -> T {
        self.driver
    }

    /// The retention limit that the engine was built with.
    pub closed spec fn limit(&self) -> MaxHistory {
        self.max_history
    }

    /// Whether `r` is what the backend's `get` may return for a key that
    /// reads `key`.
    pub open spec fn gets(&self, key: Seq<char>, r: Result<Release, DriverError>) -> bool {
        exists|k: String| k@ == key && call_ensures(T::get, (&self.backend(), &k), r)
    }

    /// Whether `r` is what the backend's `delete` may return for a key that
    /// reads `key`.
    pub open spec fn deletes(&self, key: Seq<char>, r: Result<Release, DriverError>) -> bool {
        exists|k: String|
            k@ == key && call_ensures(T::delete, (&self.backend(), &k), r)
    }

    /// Whether `r` is what the backend's `create` may return for `rel` and a
    /// key that reads `key`.
    pub open spec fn creates(&self, key: Seq<char>, rel: Release, r: Result<(), DriverError>) -> bool {
        exists|k: String|
            k@ == key && call_ensures(T::create, (&self.backend(), &k, rel), r)
    }

    /// Whether `r` is what the backend's `update` may return for `rel` and a
    /// key that reads `key`.
    pub open spec fn updates(&self, key: Seq<char>, rel: Release, r: Result<(), DriverError>) -> bool {
        exists|k: String|
            k@ == key && call_ensures(T::update, (&self.backend(), &k, rel), r)
    }

    /// Whether `r` is what the backend's `query` may return for labels that
    /// read `labels`.
    pub open spec fn queries(
        &self,
        labels: Seq<(Seq<char>, Seq<char>)>,
        r: Result<Vec<Release>, DriverError>,
    ) -> bool {
        exists|l: Vec<(String, String)>|
            l.deep_view() == labels && distinct_keys(l@) && call_ensures(
                T::query,
                (&self.backend(), l),
                r,
            )
    }

    /// Whether `r` is what the backend's `list` may return for `filter`.
    pub open spec fn lists<F: Fn(&Release) -> bool>(
        &self,
        filter: F,
        r: Result<Vec<Release>, DriverError>,
    ) -> bool {
        call_ensures(T::list, (&self.backend(), filter), r)
    }

    /// Whether the backend's `delete` was given a key that reads `key`, and
    /// returned.
    pub open spec fn tried_delete(&self, key: Seq<char>) -> bool {
        exists|outcome: Result<Release, DriverError>| #[trigger] self.deletes(key, outcome)
    }

    /// What the retention policy does for the release `name`, given the
    /// outcome `found` of the query for its history. A failed query is the
    /// result. Otherwise the policy succeeds, whatever came of the removals,
    /// after it asked the backend to delete each version due.
    pub open spec fn trims_after(
        &self,
        name: Seq<char>,
        found: Result<Vec<Release>, DriverError>,
        r: Result<(), DriverError>,
    ) -> bool {
        match found {
            Err(e) => r == Err::<(), DriverError>(e),
            Ok(rels) => {
                let doomed = evictions(versions_of(rels@), self.limit());
                &&& r is Ok
                &&& forall|i: int|
                    0 <= i < doomed.len() ==> self.tried_delete(
                        key_of(name, (#[trigger] doomed[i]) as nat),
                    )
            },
        }
    }

    /// What the retention policy does for the release `name`: nothing where
    /// there is no limit, else what follows from the history it queried.
    pub open spec fn trims(&self, name: Seq<char>, r: Result<(), DriverError>) -> bool {
        match self.limit() {
            MaxHistory::NoLimit => r is Ok,
            MaxHistory::Limit(_) => exists|found: Result<Vec<Release>, DriverError>|
                self.queries(history_labels(name), found) && #[trigger] self.trims_after(
                    name,
                    found,
                    r,
                ),
        }
    }

    /// An engine over the backend `d` that keeps as many versions of a
    /// release as `max` allows.
    pub fn new(d: T, max: MaxHistory) -> (storage: Self)
        ensures
            storage.backend() == d,
            storage.limit() == max,
    {
        Storage { driver: d, max_history: max }
    }

    /// The key of the release `release_name` at `version`.
    pub fn make_key(&self, release_name: &str, version: &usize) -> (key: String)
        ensures
            key@ == key_of(release_name@, *version as nat),
    {
        proof {
            reveal_strlit(".");
            reveal_strlit(".v");
        }
        let mut key = String::from_str(HELM_STORAGE_TYPE);
        key.append(".");
        key.append(release_name);
        key.append(".v");
        let digits = decimal_string(*version as u64);
        key.append(digits.as_str());
        key
    }

    /// Applies the retention policy to the release `release_name`. Without
    /// a limit it does nothing. Otherwise it queries the history and, where
    /// that is longer than the limit, asks the backend to delete the lowest
    /// versions, one by one. A removal that fails is passed over: a later
    /// call will try it again.
    pub fn remove_least_recent(&self, release_name: &str) -> (r: Result<(), DriverError>)
        ensures
            self.trims(release_name@, r),
    {
        let max = match self.max_history {
            MaxHistory::NoLimit => {
                return Ok(());
            },
            MaxHistory::Limit(n) => n,
        };
        let found = self.history(release_name);
        let rels = match found {
            Ok(rels) => rels,
            Err(e) => {
                assert(self.trims_after(release_name@, found, Err(e)));
                return Err(e);
            },
        };
        let doomed = least_recent(&rels, max);
        let mut i: usize = 0;
        while i < doomed.len()
            invariant
                i <= doomed.len(),
                forall|k: int|
                    0 <= k < i ==> self.tried_delete(
                        key_of(release_name@, (#[trigger] doomed@[k]) as nat),
                    ),
            decreases doomed.len() - i,
        {
            let key = self.make_key(release_name, &doomed[i]);
            let outcome = self.driver.delete(&key);
            assert(self.deletes(key@, outcome));
            i = i + 1;
        }
        assert(self.trims_after(release_name@, found, Ok(())));
        Ok(())
    }

    /// The release `release_name` at `version`, as the backend holds it.
    pub fn get(&self, release_name: &str, version: &usize) -> (r: Result<Release, DriverError>)
        ensures
            self.gets(key_of(release_name@, *version as nat), r),
    {
        let key = self.make_key(release_name, version);
        self.driver.get(&key)
    }

    /// Stores a new release. The retention policy runs first, for the name
    /// of the release; where it fails, its error is the result and nothing
    /// is stored. Otherwise the result is that of the backend's `create`.
    pub fn create(&self, rel: Release) -> (r: Result<(), DriverError>)
        ensures
            exists|trimmed: Result<(), DriverError>| #[trigger]
                self.trims(rel.name@, trimmed) && match trimmed {
                    Ok(_) => self.creates(key_of(rel.name@, rel.version as nat), rel, r),
                    Err(e) => r == Err::<(), DriverError>(e),
                },
    {
        let trimmed = self.remove_least_recent(rel.name.as_str());
        match trimmed {
            Ok(_) => {},
            Err(e) => {
                return Err(e);
            },
        }
        let key = self.make_key(rel.name.as_str(), &rel.version);
        self.driver.create(&key, rel)
    }

    /// Overwrites a stored release. The retention policy does not run.
    pub fn update(&self, rel: Release) -> (r: Result<(), DriverError>)
        ensures
            self.updates(key_of(rel.name@, rel.version as nat), rel, r),
    {
        let key = self.make_key(rel.name.as_str(), &rel.version);
        self.driver.update(&key, rel)
    }

    /// Removes the release `release_name` at `version` and returns it.
    pub fn delete(&self, release_name: &str, version: &usize) -> (r: Result<Release, DriverError>)
        ensures
            self.deletes(key_of(release_name@, *version as nat), r),
    {
        let key = self.make_key(release_name, version);
        self.driver.delete(&key)
    }

    /// All releases.
    pub fn list_all(&self) -> (r: Result<Vec<Release>, DriverError>)
        ensures
            self.lists(any_status, r),
    {
        self.driver.list(any_status)
    }

    /// The uninstalled releases.
    pub fn list_uninstalled(&self) -> (r: Result<Vec<Release>, DriverError>)
        ensures
            self.lists(is_uninstalled, r),
            r matches Ok(found) ==> forall|i: int|
                0 <= i < found.len() ==> (#[trigger] found[i]).info.status == Status::Uninstalled,
    {
        self.driver.list(is_uninstalled)
    }

    /// The deployed releases.
    pub fn list_deployed(&self) -> (r: Result<Vec<Release>, DriverError>)
        ensures
            self.lists(is_deployed, r),
            r matches Ok(found) ==> forall|i: int|
                0 <= i < found.len() ==> (#[trigger] found[i]).info.status == Status::Deployed,
    {
        self.driver.list(is_deployed)
    }

    /// Every version of the release `release_name`, whatever its status.
    pub fn history(&self, release_name: &str) -> (r: Result<Vec<Release>, DriverError>)
        ensures
            self.queries(history_labels(release_name@), r),
    {
        let mut query_labels: Vec<(String, String)> = Vec::new();
        query_labels.push((String::from_str("name"), String::from_str(release_name)));
        query_labels.push((String::from_str("owner"), String::from_str("helm")));
        assert(query_labels.deep_view() =~= history_labels(release_name@));
        proof {
            lemma_query_labels_distinct(release_name@);
            lemma_labels_of_distinct_keys(query_labels);
        }
        self.driver.query(query_labels)
    }

    /// The deployed versions of the release `release_name`.
    pub fn get_all_deployed(&self, release_name: &str) -> (r: Result<Vec<Release>, DriverError>)
        ensures
            self.queries(deployed_labels(release_name@), r),
    {
        let mut query_labels: Vec<(String, String)> = Vec::new();
        query_labels.push((String::from_str("name"), String::from_str(release_name)));
        query_labels.push((String::from_str("owner"), String::from_str("helm")));
        query_labels.push((String::from_str("status"), Status::Deployed.to_string()));
        assert(query_labels.deep_view() =~= deployed_labels(release_name@));
        proof {
            lemma_query_labels_distinct(release_name@);
            lemma_labels_of_distinct_keys(query_labels);
        }
        self.driver.query(query_labels)
    }

    /// The deployed version of the release `release_name` with the highest
    /// version: `ReleaseNotExist` where none is deployed.
    pub fn last_deployed(&self, release_name: &str) -> (r: Result<Release, DriverError>)
        ensures
            exists|found: Result<Vec<Release>, DriverError>|
                self.queries(deployed_labels(release_name@), found) && #[trigger] latest_outcome(
                    found,
                    r,
                ),
    {
        let found = self.get_all_deployed(release_name);
        match found {
            Ok(all) => {
                let r = latest(all);
                assert(latest_outcome(found, r));
                r
            },
            Err(e) => {
                assert(latest_outcome(found, Err(e)));
                Err(e)
            },
        }
    }

    /// The release `release_name` with the highest version, whatever its
    /// status: `ReleaseNotExist` where there is no version at all.
    pub fn last(&self, release_name: &str) -> (r: Result<Release, DriverError>)
        ensures
            exists|found: Result<Vec<Release>, DriverError>|
                self.queries(history_labels(release_name@), found) && #[trigger] latest_outcome(
                    found,
                    r,
                ),
    {
        let found = self.history(release_name);
        match found {
            Ok(all) => {
                let r = latest(all);
                assert(latest_outcome(found, r));
                r
            },
            Err(e) => {
                assert(latest_outcome(found, Err(e)));
                Err(e)
            },
        }
    }
}

/// Accepts every release.
pub fn any_status(rel: &Release) -> (accepted: bool)
    ensures
        accepted,
{
    true
}

/// Accepts the uninstalled releases.
pub fn is_uninstalled(rel: &Release) -> (accepted: bool)
    ensures
        accepted == (rel.info.status == Status::Uninstalled),
{
    rel.info.status == Status::Uninstalled
}

/// Accepts the deployed releases.
pub fn is_deployed(rel: &Release) -> (accepted: bool)
    ensures
        accepted == (rel.info.status == Status::Deployed),
{
    rel.info.status == Status::Deployed
}

/// The versions of `rels` in ascending order.
pub fn sorted_versions(rels: &Vec<Release>) -> (sorted: Vec<usize>)
    ensures
        sorted@ == ascending(versions_of(rels@)),
{
    let ghost all = versions_of(rels@);
    let mut sorted: Vec<usize> = Vec::new();
    let mut i: usize = 0;
    assert(all.take(0) =~= Seq::<usize>::empty());
    while i < rels.len()
        invariant
            all == versions_of(rels@),
            i <= rels.len(),
            sorted.len() == i,
            sorted_by(sorted@, version_leq()),
            sorted@.to_multiset() == all.take(i as int).to_multiset(),
        decreases rels.len() - i,
    {
        let version = rels[i].version;
        let mut at: usize = 0;
        while at < sorted.len() && sorted[at] <= version
            invariant
                at <= sorted.len(),
                sorted_by(sorted@, version_leq()),
                forall|k: int| 0 <= k < at ==> sorted@[k] <= version,
            decreases sorted.len() - at,
        {
            at = at + 1;
        }
        proof {
            let before = sorted@;
            let after = before.insert(at as int, version);
            assert forall|a: int, b: int| 0 <= a < b < after.len() implies #[trigger] version_leq()(
                after[a],
                after[b],
            ) by {
                // Left of the new entry nothing is higher than it; what stands
                // right of it is no lower than the entry it was stopped by.
                if a == at && at < before.len() && b - 1 > at {
                    assert(version_leq()(before[at as int], before[b - 1]));
                }
            }
            vstd::seq_lib::to_multiset_insert(before, at as int, version);
            assert(all.take(i as int + 1) =~= all.take(i as int).push(version));
            vstd::seq_lib::to_multiset_build(all.take(i as int), version);
        }
        sorted.insert(at, version);
        i = i + 1;
    }
    proof {
        assert(all.take(i as int) =~= all);
        lemma_version_order_total();
        all.lemma_sort_by_ensures(version_leq());
        lemma_sorted_unique(sorted@, ascending(all), version_leq());
    }
    sorted
}

/// The versions that the retention policy removes from the history `rels`
/// under the limit `limit`.
pub fn least_recent(rels: &Vec<Release>, limit: usize) -> (doomed: Vec<usize>)
    ensures
        doomed@ == evictions(versions_of(rels@), MaxHistory::Limit(limit)),
{
    if rels.len() <= limit {
        return Vec::new();
    }
    let overage = rels.len() - limit;
    let mut doomed = sorted_versions(rels);
    proof {
        lemma_version_order_total();
        versions_of(rels@).lemma_sort_by_ensures(version_leq());
        versions_of(rels@).to_multiset_ensures();
        ascending(versions_of(rels@)).to_multiset_ensures();
    }
    doomed.truncate(overage);
    doomed
}

/// The latest of `rels`: `ReleaseNotExist` where there is none.
pub fn latest(rels: Vec<Release>) -> (r: Result<Release, DriverError>)
    ensures
        latest_of(rels@, r),
{
    match newest(rels) {
        Some(rel) => Ok(rel),
        None => Err(DriverError::ReleaseNotExist),
    }
}

/// The labels that the engine queries by have no key twice.
pub proof fn lemma_query_labels_distinct(name: Seq<char>)
    ensures
        distinct_labels(history_labels(name)),
        distinct_labels(deployed_labels(name)),
{
    reveal_strlit("name");
    reveal_strlit("owner");
    reveal_strlit("status");
    assert("name"@.len() == 4);
    assert("owner"@.len() == 5);
    assert("status"@.len() == 6);
}

/// A key names one release. Two releases with the same key have the same
/// name and the same version, so no two records of a history share an
/// object.
pub proof fn lemma_key_names_one_release(
    name: Seq<char>,
    version: nat,
    other_name: Seq<char>,
    other_version: nat,
)
    requires
        key_of(name, version) == key_of(other_name, other_version),
    ensures
        name == other_name,
        version == other_version,
{
    let head = HELM_STORAGE_TYPE@ + seq!['.'];
    let digits = decimal(version);
    let other_digits = decimal(other_version);
    let key = key_of(name, version);
    let other_key = key_of(other_name, other_version);
    lemma_decimal_is_digits(version);
    lemma_decimal_is_digits(other_version);
    // The numerals have one length: else the `v` before the shorter would
    // stand among the digits of the longer.
    if digits.len() < other_digits.len() {
        let at = key.len() - digits.len() - 1;
        assert(other_key[at] == other_digits[at - (other_key.len() - other_digits.len())]);
    }
    if other_digits.len() < digits.len() {
        let at = other_key.len() - other_digits.len() - 1;
        assert(key[at] == digits[at - (key.len() - digits.len())]);
    }
    // So the keys end in the same numeral, and begin with the same name.
    assert(digits =~= other_digits) by {
        assert forall|i: int| 0 <= i < digits.len() implies digits[i] == other_digits[i] by {
            assert(other_key[key.len() - digits.len() + i] == other_digits[i]);
        }
    }
    lemma_decimal_injective(version, other_version);
    assert(name =~= other_name) by {
        assert forall|i: int| 0 <= i < name.len() implies name[i] == other_name[i] by {
            assert(other_key[head.len() + i] == other_name[i]);
        }
    }
}

/// The status filters are exact. Of a listing that a backend selects with
/// `is_deployed`, the releases kept are exactly the deployed releases of the
/// listing; with `is_uninstalled`, exactly the uninstalled ones.
pub proof fn lemma_status_filters_are_exact(
    decoded: Seq<Result<Release, DriverError>>,
    keep: Seq<bool>,
)
    ensures
        answers(is_deployed, decoded, keep) ==> forall|rel: Release| #[trigger]
            picked(decoded, keep).contains(rel) <==> decoded.contains(
                Ok::<Release, DriverError>(rel),
            ) && rel.info.status == Status::Deployed,
        answers(is_uninstalled, decoded, keep) ==> forall|rel: Release| #[trigger]
            picked(decoded, keep).contains(rel) <==> decoded.contains(
                Ok::<Release, DriverError>(rel),
            ) && rel.info.status == Status::Uninstalled,
{
    if answers(is_deployed, decoded, keep) {
        lemma_picked_is_exact(
            decoded,
            keep,
            |rel: Release| rel.info.status == Status::Deployed,
        );
    }
    if answers(is_uninstalled, decoded, keep) {
        lemma_picked_is_exact(
            decoded,
            keep,
            |rel: Release| rel.info.status == Status::Uninstalled,
        );
    }
}

/// The order of versions is a total order.
pub proof fn lemma_version_order_total()
    ensures
        total_ordering(version_leq()),
{
}

/// The retention policy does not depend on the order in which the history
/// is listed: two listings of the same versions lose the same versions.
pub proof fn lemma_evictions_ignore_order(a: Seq<usize>, b: Seq<usize>, max: MaxHistory)
    requires
        a.to_multiset() == b.to_multiset(),
    ensures
        evictions(a, max) == evictions(b, max),
{
    lemma_version_order_total();
    a.lemma_sort_by_ensures(version_leq());
    b.lemma_sort_by_ensures(version_leq());
    a.to_multiset_ensures();
    b.to_multiset_ensures();
    lemma_sorted_unique(ascending(a), ascending(b), version_leq());
}

/// What the retention policy removes and what it leaves. The versions
/// removed are as many as the history exceeds the limit by, they are
/// versions of the history, and none of them is higher than a version that
/// stays.
pub proof fn lemma_evictions_are_lowest(versions: Seq<usize>, limit: usize)
    requires
        versions.len() > limit,
    ensures
        evictions(versions, MaxHistory::Limit(limit)).len() == versions.len() - limit,
        evictions(versions, MaxHistory::Limit(limit)) + ascending(versions).skip(
            versions.len() - limit,
        ) == ascending(versions),
        ascending(versions).to_multiset() == versions.to_multiset(),
        forall|i: int, j: int|
            0 <= i < versions.len() - limit <= j < versions.len() ==> #[trigger] evictions(
                versions,
                MaxHistory::Limit(limit),
            )[i] <= #[trigger] ascending(versions)[j],
{
    lemma_version_order_total();
    versions.lemma_sort_by_ensures(version_leq());
    versions.to_multiset_ensures();
    ascending(versions).to_multiset_ensures();
    let sorted = ascending(versions);
    let cut = versions.len() - limit;
    assert forall|i: int, j: int| 0 <= i < cut <= j < versions.len() implies #[trigger] sorted.take(
        cut,
    )[i] <= #[trigger] sorted[j] by {
        assert(version_leq()(sorted[i], sorted[j]));
    }
}

} // verus!
