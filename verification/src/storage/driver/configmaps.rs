//! The backend variant that keeps releases in config maps. A config map
//! holds text, so the payload is read back as it was written, base64 layer
//! included.

use crate::entries::distinct_keys;
use crate::release::Release;
use crate::storage::driver::codec::{decode_release, decoded, RawData};
use crate::storage::driver::object::{
    answers, builds, collect_releases, created_at, label_selector, last_error,
    lemma_time_label_avoids_release_keys, lookup, modified_at, owner_labels, picked,
    release_object, selector, take_entry, time_label, Object,
};
use crate::storage::driver::DriverError;
use vstd::prelude::*;
use vstd::string::StringExecFns;

verus! {

/// The config map variant, bound to one namespace of the cluster.
pub struct ConfigMaps {
    namespace: String,
}

impl ConfigMaps {
    /// The namespace whose config maps hold the releases.
    pub closed spec fn scope(&self) -> Seq<char> {
        self.namespace@
    }

    pub fn new(namespace: String) -> (backend: Self)
        ensures
            backend.scope() == namespace@,
    {
        ConfigMaps { namespace }
    }

    /// The namespace whose config maps hold the releases.
    pub fn namespace(&self) -> (namespace: &String)
        ensures
            namespace@ == self.scope(),
    {
        &self.namespace
    }

    /// The name of this backend.
    pub fn name(&self) -> (name: String)
        ensures
            name@ == "configmaps"@,
    {
        String::from_str("configmaps")
    }

    /// The config map that holds `rel` under `key`, with `addl_labels` after
    /// the labels of the release. It fails, with an `EncodeError`, where the
    /// document is refused, and only there.
    pub fn generate_cm_data(
        key: &String,
        rel: &Release,
        document: &Vec<u8>,
        addl_labels: Vec<(String, String)>,
    ) -> (r: Result<Object, DriverError>)
        requires
            distinct_keys(addl_labels@),
        ensures
            builds(r, "ConfigMap"@, None, key@, *rel, document@, addl_labels.deep_view()),
    {
        release_object("ConfigMap", None, key, rel, document, addl_labels)
    }

    /// The config map to create for `rel`: labelled `createdAt` with the
    /// time of creation, in seconds since the epoch. No key occurs twice
    /// among its labels.
    pub fn create_object(key: &String, rel: &Release, document: &Vec<u8>, now: i64) -> (r: Result<
        Object,
        DriverError,
    >)
        ensures
            builds(r, "ConfigMap"@, None, key@, *rel, document@, time_label("createdAt"@, now)),
            r matches Ok(obj) ==> distinct_keys(obj.labels@),
    {
        proof {
            lemma_time_label_avoids_release_keys("createdAt"@, now);
        }
        ConfigMaps::generate_cm_data(key, rel, document, created_at(now))
    }

    /// The config map to put in place of the one that holds `rel`: labelled
    /// `modifiedAt` with the time of the change. No key occurs twice among
    /// its labels.
    pub fn update_object(key: &String, rel: &Release, document: &Vec<u8>, now: i64) -> (r: Result<
        Object,
        DriverError,
    >)
        ensures
            builds(r, "ConfigMap"@, None, key@, *rel, document@, time_label("modifiedAt"@, now)),
            r matches Ok(obj) ==> distinct_keys(obj.labels@),
    {
        proof {
            lemma_time_label_avoids_release_keys("modifiedAt"@, now);
        }
        ConfigMaps::generate_cm_data(key, rel, document, modified_at(now))
    }

    /// The payload of a config map that was read: the text under `release`.
    /// A config map without that entry is refused as `InvalidData`. `data`
    /// stands for the map that the config map holds: no key occurs twice.
    pub fn get_raw_data(data: Vec<(String, String)>) -> (r: Result<RawData, DriverError>)
        requires
            distinct_keys(data@),
        ensures
            match lookup(data@, "release"@) {
                Some(text) => r == Ok::<RawData, DriverError>(RawData::Encoded(text)),
                None => r matches Err(e) && e is InvalidData,
            },
    {
        match take_entry(data, "release") {
            Some(text) => Ok(RawData::Encoded(text)),
            None => Err(
                DriverError::InvalidData { message: String::from_str("no 'release' key found") },
            ),
        }
    }

    /// The release document that a config map holds.
    pub fn get_document(data: Vec<(String, String)>) -> (r: Result<Vec<u8>, DriverError>)
        requires
            distinct_keys(data@),
        ensures
            match lookup(data@, "release"@) {
                Some(text) => match decoded(RawData::Encoded(text)) {
                    Some(document) => r matches Ok(bytes) && bytes@ == document,
                    None => r matches Err(e) && e is DecodeError,
                },
                None => r matches Err(e) && e is InvalidData,
            },
    {
        match ConfigMaps::get_raw_data(data) {
            Ok(raw) => decode_release(raw),
            Err(e) => Err(e),
        }
    }

    /// The releases of a listing of config maps, each given as it was
    /// decoded: see `collect_releases`.
    pub fn get_cm_list<F: Fn(&Release) -> bool>(
        decoded: Vec<Result<Release, DriverError>>,
        filter: F,
    ) -> (r: Result<Vec<Release>, DriverError>)
        requires
            forall|rel: &Release| #[trigger] filter.requires((rel,)),
        ensures
            match last_error(decoded@) {
                Some(e) => r == Err::<Vec<Release>, DriverError>(e),
                None => r matches Ok(found) && exists|keep: Seq<bool>| #[trigger]
                    answers(filter, decoded@, keep) && found@ == picked(decoded@, keep),
            },
    {
        collect_releases(decoded, filter)
    }

    /// The selector that finds every config map of this storage scheme.
    pub fn list_selector() -> (text: String)
        ensures
            text@ == selector(owner_labels()),
    {
        let mut labels: Vec<(String, String)> = Vec::new();
        labels.push((String::from_str("owner"), String::from_str("helm")));
        label_selector(&labels)
    }

    /// The selector that finds the config maps which carry every label of
    /// `labels`.
    pub fn query_selector(labels: &Vec<(String, String)>) -> (text: String)
        ensures
            text@ == selector(labels.deep_view()),
    {
        label_selector(labels)
    }
}

} // verus!
