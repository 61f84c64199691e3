//! The backend variant that keeps releases in secrets. The store undoes the
//! base64 layer of what a secret holds, so the payload is read back as the
//! compressed bytes.

use crate::entries::distinct_keys;
use crate::release::Release;
use crate::storage::driver::codec::{decode_release, decoded, RawData};
use crate::storage::driver::object::{
    answers, builds, collect_releases, created_at, label_selector, last_error,
    lemma_time_label_avoids_release_keys, lookup, modified_at, owner_labels, picked,
    release_object, selector, take_entry, time_label, Object,
};
use crate::storage::driver::DriverError;
use vstd::prelude::*;
use vstd::string::StringExecFns;

verus! {

/// The secret variant, bound to one namespace of the cluster.
pub struct Secrets {
    namespace: String,
}

impl Secrets {
    /// The namespace whose secrets hold the releases.
    pub closed spec fn scope(&self) -> Seq<char> {
        self.namespace@
    }

    pub fn new(namespace: String) -> (backend: Self)
        ensures
            backend.scope() == namespace@,
    {
        Secrets { namespace }
    }

    /// The namespace whose secrets hold the releases.
    pub fn namespace(&self) -> (namespace: &String)
        ensures
            namespace@ == self.scope(),
    {
        &self.namespace
    }

    /// The name of this backend.
    pub fn name(&self) -> (name: String)
        ensures
            name@ == "secrets"@,
    {
        String::from_str("secrets")
    }

    /// The secret that holds `rel` under `key`, with `addl_labels` after
    /// the labels of the release. It fails, with an `EncodeError`, where the
    /// document is refused, and only there.
    pub fn generate_secret_data(
        key: &String,
        rel: &Release,
        document: &Vec<u8>,
        addl_labels: Vec<(String, String)>,
    ) -> (r: Result<Object, DriverError>)
        requires
            distinct_keys(addl_labels@),
        ensures
            builds(r, "Secret"@, Some("helm.sh/release.v1"@), key@, *rel, document@, addl_labels.deep_view()),
    {
        release_object("Secret", Some("helm.sh/release.v1"), key, rel, document, addl_labels)
    }

    /// The secret to create for `rel`: labelled `createdAt` with the
    /// time of creation, in seconds since the epoch. No key occurs twice
    /// among its labels.
    pub fn create_object(key: &String, rel: &Release, document: &Vec<u8>, now: i64) -> (r: Result<
        Object,
        DriverError,
    >)
        ensures
            builds(r, "Secret"@, Some("helm.sh/release.v1"@), key@, *rel, document@, time_label("createdAt"@, now)),
            r matches Ok(obj) ==> distinct_keys(obj.labels@),
    {
        proof {
            lemma_time_label_avoids_release_keys("createdAt"@, now);
        }
        Secrets::generate_secret_data(key, rel, document, created_at(now))
    }

    /// The secret to put in place of the one that holds `rel`: labelled
    /// `modifiedAt` with the time of the change. No key occurs twice among
    /// its labels.
    pub fn update_object(key: &String, rel: &Release, document: &Vec<u8>, now: i64) -> (r: Result<
        Object,
        DriverError,
    >)
        ensures
            builds(r, "Secret"@, Some("helm.sh/release.v1"@), key@, *rel, document@, time_label("modifiedAt"@, now)),
            r matches Ok(obj) ==> distinct_keys(obj.labels@),
    {
        proof {
            lemma_time_label_avoids_release_keys("modifiedAt"@, now);
        }
        Secrets::generate_secret_data(key, rel, document, modified_at(now))
    }

    /// The payload of a secret that was read: the bytes under `release`. A
    /// secret without that entry is refused as `InvalidData`. `data` stands
    /// for the map that the secret holds: no key occurs twice.
    pub fn get_raw_data(data: Vec<(String, Vec<u8>)>) -> (r: Result<RawData, DriverError>)
        requires
            distinct_keys(data@),
        ensures
            match lookup(data@, "release"@) {
                Some(bytes) => r == Ok::<RawData, DriverError>(RawData::Decoded(bytes)),
                None => r matches Err(e) && e is InvalidData,
            },
    {
        match take_entry(data, "release") {
            Some(bytes) => Ok(RawData::Decoded(bytes)),
            None => Err(
                DriverError::InvalidData { message: String::from_str("no 'release' key found") },
            ),
        }
    }

    /// The release document that a secret holds.
    pub fn get_document(data: Vec<(String, Vec<u8>)>) -> (r: Result<Vec<u8>, DriverError>)
        requires
            distinct_keys(data@),
        ensures
            match lookup(data@, "release"@) {
                Some(bytes) => match decoded(RawData::Decoded(bytes)) {
                    Some(document) => r matches Ok(bytes) && bytes@ == document,
                    None => r matches Err(e) && e is DecodeError,
                },
                None => r matches Err(e) && e is InvalidData,
            },
    {
        match Secrets::get_raw_data(data) {
            Ok(raw) => decode_release(raw),
            Err(e) => Err(e),
        }
    }

    /// The releases of a listing of secrets, each given as it was
    /// decoded: see `collect_releases`.
    pub fn get_secret_list<F: Fn(&Release) -> bool>(
        decoded: Vec<Result<Release, DriverError>>,
        filter: F,
    ) -> (r: Result<Vec<Release>, DriverError>)
        requires
            forall|rel: &Release| #[trigger] filter.requires((rel,)),
        ensures
            match last_error(decoded@) {
                Some(e) => r == Err::<Vec<Release>, DriverError>(e),
                None => r matches Ok(found) && exists|keep: Seq<bool>| #[trigger]
                    answers(filter, decoded@, keep) && found@ == picked(decoded@, keep),
            },
    {
        collect_releases(decoded, filter)
    }

    /// The selector that finds every secret of this storage scheme.
    pub fn list_selector() -> (text: String)
        ensures
            text@ == selector(owner_labels()),
    {
        let mut labels: Vec<(String, String)> = Vec::new();
        labels.push((String::from_str("owner"), String::from_str("helm")));
        label_selector(&labels)
    }

    /// The selector that finds the secrets which carry every label of
    /// `labels`.
    pub fn query_selector(labels: &Vec<(String, String)>) -> (text: String)
        ensures
            text@ == selector(labels.deep_view()),
    {
        label_selector(labels)
    }
}

} // verus!
