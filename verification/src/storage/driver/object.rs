//! The object that a backend keeps for a release, its labels, and the
//! selection of releases out of a listing.

use crate::entries::{distinct_keys, distinct_labels, lemma_labels_of_distinct_keys};
use crate::release::Release;
use crate::storage::driver::codec::{encode_release, encoded, is_payload_of};
use crate::storage::driver::DriverError;
use crate::text::{decimal, decimal_string, signed_decimal, signed_decimal_string};
use vstd::prelude::*;
use vstd::string::StringExecFns;

verus! {

/// A labelled object of the backing store, as it is written. `labels` and
/// `data` stand for maps. The objects built here have no key twice, unless
/// they are given a label under one of the keys of the release labels: then
/// `labels` is read in order, and the later entry stands.
#[derive(Clone, Debug, PartialEq, Eq)]
pub struct Object {
    pub api_version: String,
    pub kind: String,
    /// The name of the object: the key of the release.
    pub name: String,
    pub labels: Vec<(String, String)>,
    /// The type marker, for the kind that needs one.
    pub type_marker: Option<String>,
    /// The payload entries: one, named `release`.
    pub data: Vec<(String, String)>,
}

/// The labels that every release object carries: the name of the release,
/// the owner `helm`, the canonical text of the status, and the version in
/// decimal.
pub open spec fn release_labels(rel: Release) -> Seq<(Seq<char>, Seq<char>)> {
    seq![
        ("name"@, rel.name@),
        ("owner"@, "helm"@),
        ("status"@, rel.info.status.canonical()),
        ("version"@, decimal(rel.version as nat)),
    ]
}

/// The label that records, under `key`, a time in seconds since the epoch.
pub open spec fn time_label(key: Seq<char>, seconds: i64) -> Seq<(Seq<char>, Seq<char>)> {
    seq![(key, signed_decimal(seconds as int))]
}

/// The labels by which all objects of this storage scheme are found.
pub open spec fn owner_labels() -> Seq<(Seq<char>, Seq<char>)> {
    seq![("owner"@, "helm"@)]
}

/// The value that a list of labels gives to `key`: that of the last entry
/// of that key, if there is one.
pub open spec fn label_value(labels: Seq<(Seq<char>, Seq<char>)>, key: Seq<char>) -> Option<
    Seq<char>,
>
    decreases labels.len(),
{
    if labels.len() == 0 {
        None
    } else if labels.last().0 == key {
        Some(labels.last().1)
    } else {
        label_value(labels.drop_last(), key)
    }
}

/// The selector text of a list of labels: `key=value`, joined by commas, in
/// the order of the list.
pub open spec fn selector(labels: Seq<(Seq<char>, Seq<char>)>) -> Seq<char>
    decreases labels.len(),
{
    if labels.len() == 0 {
        Seq::<char>::empty()
    } else if labels.len() == 1 {
        labels[0].0 + seq!['='] + labels[0].1
    } else {
        selector(labels.drop_last()) + seq![','] + labels.last().0 + seq!['='] + labels.last().1
    }
}

/// The content of what a stored object holds under `key`: that of the first
/// entry of that name, if there is one.
pub open spec fn lookup<V>(entries: Seq<(String, V)>, key: Seq<char>) -> Option<V>
    decreases entries.len(),
{
    if entries.len() == 0 {
        None
    } else if entries[0].0@ == key {
        Some(entries[0].1)
    } else {
        lookup(entries.drop_first(), key)
    }
}

/// The error of the last failed item of a listing, if any item failed.
pub open spec fn last_error(decoded: Seq<Result<Release, DriverError>>) -> Option<DriverError>
    decreases decoded.len(),
{
    if decoded.len() == 0 {
        None
    } else {
        match decoded.last() {
            Err(e) => Some(e),
            Ok(_) => last_error(decoded.drop_last()),
        }
    }
}

/// The releases of a listing that `keep` marks, last item first.
pub open spec fn picked(decoded: Seq<Result<Release, DriverError>>, keep: Seq<bool>) -> Seq<
    Release,
>
    decreases decoded.len(),
{
    if decoded.len() == 0 {
        Seq::<Release>::empty()
    } else {
        let rest = picked(decoded.drop_first(), keep.drop_first());
        match decoded[0] {
            Ok(rel) => if keep[0] {
                rest.push(rel)
            } else {
                rest
            },
            Err(_) => rest,
        }
    }
}

/// Whether `keep` holds, item by item, the answers that `filter` may give on
/// the releases of a listing.
pub open spec fn answers<F: Fn(&Release) -> bool>(
    filter: F,
    decoded: Seq<Result<Release, DriverError>>,
    keep: Seq<bool>,
) -> bool {
    &&& keep.len() == decoded.len()
    &&& forall|i: int|
        0 <= i < decoded.len() ==> (#[trigger] decoded[i] matches Ok(rel) ==> filter.ensures(
            (&rel,),
            keep[i],
        ))
}

/// Whether `key` is one of the keys of the labels of a release.
pub open spec fn is_release_key(key: Seq<char>) -> bool {
    key == "name"@ || key == "owner"@ || key == "status"@ || key == "version"@
}

/// Whether none of `labels` has a key of the labels of a release.
pub open spec fn avoids_release_keys(labels: Seq<(Seq<char>, Seq<char>)>) -> bool {
    forall|i: int| 0 <= i < labels.len() ==> !is_release_key((#[trigger] labels[i]).0)
}

/// Whether `obj` is the object that holds a release under `key` with the
/// payload text `payload`: of the given kind and type marker, named `key`,
/// labelled with the labels of the release followed by `more`, and holding
/// one entry, `release`, with the payload. Where `more` keeps off the keys of
/// the release labels, no key occurs twice among the labels.
pub open spec fn holds_payload(
    obj: Object,
    kind: Seq<char>,
    type_marker: Option<Seq<char>>,
    key: Seq<char>,
    rel: Release,
    payload: Seq<char>,
    more: Seq<(Seq<char>, Seq<char>)>,
) -> bool {
    &&& obj.api_version@ == "v1"@
    &&& obj.kind@ == kind
    &&& obj.name@ == key
    &&& obj.labels.deep_view() == release_labels(rel) + more
    &&& avoids_release_keys(more) ==> distinct_keys(obj.labels@)
    &&& obj.type_marker.deep_view() == type_marker
    &&& obj.data.deep_view() == seq![("release"@, payload)]
    &&& distinct_keys(obj.data@)
}

/// Whether `obj` is the object that holds a release under `key`: the
/// document has a payload, and the object is as `holds_payload` says with
/// that payload.
pub open spec fn holds_release(
    obj: Object,
    kind: Seq<char>,
    type_marker: Option<Seq<char>>,
    key: Seq<char>,
    rel: Release,
    document: Seq<u8>,
    more: Seq<(Seq<char>, Seq<char>)>,
) -> bool {
    &&& encoded(document) matches Some(payload)
    &&& is_payload_of(payload, document)
    &&& holds_payload(obj, kind, type_marker, key, rel, payload, more)
}

/// What a builder of release objects returns for a document: the object
/// that holds the release where the document has a payload, and an
/// `EncodeError` where it is refused.
pub open spec fn builds(
    r: Result<Object, DriverError>,
    kind: Seq<char>,
    type_marker: Option<Seq<char>>,
    key: Seq<char>,
    rel: Release,
    document: Seq<u8>,
    more: Seq<(Seq<char>, Seq<char>)>,
) -> bool {
    match r {
        Ok(obj) => holds_release(obj, kind, type_marker, key, rel, document, more),
        Err(e) => e is EncodeError && encoded(document) is None,
    }
}

/// The labels of a release have four keys, and labels that keep off these
/// and have no key twice can follow them without a key occurring twice.
pub proof fn lemma_release_labels_distinct(rel: Release, more: Seq<(Seq<char>, Seq<char>)>)
    requires
        distinct_labels(more),
        avoids_release_keys(more),
    ensures
        distinct_labels(release_labels(rel) + more),
{
    reveal_strlit("name");
    reveal_strlit("owner");
    reveal_strlit("status");
    reveal_strlit("version");
    assert("name"@.len() == 4);
    assert("owner"@.len() == 5);
    assert("status"@.len() == 6);
    assert("version"@.len() == 7);
    let base = release_labels(rel);
    let all = base + more;
    assert forall|i: int, j: int| 0 <= i < j < all.len() implies (#[trigger] all[i]).0 != (
    #[trigger] all[j]).0 by {
        if j >= 4 {
            assert(all[j] == more[j - 4]);
            if i >= 4 {
                assert(all[i] == more[i - 4]);
            } else {
                assert(is_release_key(all[i].0));
            }
        }
    }
}

/// A time label keeps off the keys of the labels of a release.
pub proof fn lemma_time_label_avoids_release_keys(stamp: Seq<char>, seconds: i64)
    requires
        stamp == "createdAt"@ || stamp == "modifiedAt"@,
    ensures
        avoids_release_keys(time_label(stamp, seconds)),
{
    reveal_strlit("name");
    reveal_strlit("owner");
    reveal_strlit("status");
    reveal_strlit("version");
    reveal_strlit("createdAt");
    reveal_strlit("modifiedAt");
    assert("name"@.len() == 4);
    assert("owner"@.len() == 5);
    assert("status"@.len() == 6);
    assert("version"@.len() == 7);
    assert("createdAt"@.len() == 9);
    assert("modifiedAt"@.len() == 10);
}

/// Builds the object that holds a release under `key`, given the payload
/// text of the release. `more` are labels to follow those of the release.
pub fn object_with_payload(
    kind: &str,
    type_marker: Option<&str>,
    key: &String,
    rel: &Release,
    payload: String,
    more: Vec<(String, String)>,
) -> (obj: Object)
    requires
        distinct_keys(more@),
    ensures
        holds_payload(
            obj,
            kind@,
            type_marker.deep_view(),
            key@,
            *rel,
            payload@,
            more.deep_view(),
        ),
{
    let mut labels = labels_of(rel);
    let mut rest = more;
    labels.append(&mut rest);
    assert(labels.deep_view() =~= release_labels(*rel) + more.deep_view());
    proof {
        lemma_labels_of_distinct_keys(more);
        if avoids_release_keys(more.deep_view()) {
            lemma_release_labels_distinct(*rel, more.deep_view());
        }
        lemma_labels_of_distinct_keys(labels);
    }
    let marker = match type_marker {
        Some(text) => Some(String::from_str(text)),
        None => None,
    };
    let mut data: Vec<(String, String)> = Vec::new();
    data.push((String::from_str("release"), payload));
    assert(data.deep_view() =~= seq![("release"@, payload@)]);
    Object {
        api_version: String::from_str("v1"),
        kind: String::from_str(kind),
        name: key.clone(),
        labels,
        type_marker: marker,
        data,
    }
}

/// Builds the object that holds a release under `key`. `document` is the
/// release as a document; `more` are labels to follow those of the release.
/// It fails, with an `EncodeError`, where the document is refused, and only
/// there.
pub fn release_object(
    kind: &str,
    type_marker: Option<&str>,
    key: &String,
    rel: &Release,
    document: &Vec<u8>,
    more: Vec<(String, String)>,
) -> (r: Result<Object, DriverError>)
    requires
        distinct_keys(more@),
    ensures
        builds(r, kind@, type_marker.deep_view(), key@, *rel, document@, more.deep_view()),
{
    match encode_release(document) {
        Ok(payload) => Ok(object_with_payload(kind, type_marker, key, rel, payload, more)),
        Err(e) => Err(e),
    }
}

/// In a list without a key twice, what is held under a key is the content
/// of the one entry of that key.
pub proof fn lemma_lookup_is_the_entry<V>(entries: Seq<(String, V)>, key: Seq<char>, at: int)
    requires
        distinct_keys(entries),
        0 <= at < entries.len(),
        entries[at].0@ == key,
    ensures
        lookup(entries, key) == Some(entries[at].1),
    decreases entries.len(),
{
    if at > 0 {
        let rest = entries.drop_first();
        assert(entries[0].0@ != entries[at].0@);
        assert forall|i: int, j: int| 0 <= i < j < rest.len() implies (#[trigger] rest[i]).0@ != (
        #[trigger] rest[j]).0@ by {
            assert(entries[i + 1].0@ != entries[j + 1].0@);
        }
        lemma_lookup_is_the_entry(rest, key, at - 1);
    }
}

/// The label set of a stored release. An object that carries the labels of
/// a release and, after them, one time label gives each of the five keys
/// its value, and no value to any other key.
pub proof fn lemma_labels_of_stored_release(rel: Release, stamp: Seq<char>, seconds: i64)
    requires
        stamp == "createdAt"@ || stamp == "modifiedAt"@,
    ensures
        ({
            let labels = release_labels(rel) + time_label(stamp, seconds);
            &&& label_value(labels, "name"@) == Some(rel.name@)
            &&& label_value(labels, "owner"@) == Some("helm"@)
            &&& label_value(labels, "status"@) == Some(rel.info.status.canonical())
            &&& label_value(labels, "version"@) == Some(decimal(rel.version as nat))
            &&& label_value(labels, stamp) == Some(signed_decimal(seconds as int))
            &&& forall|key: Seq<char>|
                key != "name"@ && key != "owner"@ && key != "status"@ && key != "version"@ && key
                    != stamp ==> label_value(labels, key) is None
        }),
{
    reveal_strlit("name");
    reveal_strlit("owner");
    reveal_strlit("status");
    reveal_strlit("version");
    reveal_strlit("createdAt");
    reveal_strlit("modifiedAt");
    reveal_with_fuel(label_value, 6);
    // The six keys differ in length, so none of them hides another.
    assert("name"@.len() == 4);
    assert("owner"@.len() == 5);
    assert("status"@.len() == 6);
    assert("version"@.len() == 7);
    assert("createdAt"@.len() == 9);
    assert("modifiedAt"@.len() == 10);
    let labels = release_labels(rel) + time_label(stamp, seconds);
    assert(labels.drop_last() =~= release_labels(rel));
}

/// What a listing keeps under a filter that answers by a rule. Let every
/// answer in `keep` be what `rule` says of the release it is about. Then the
/// releases picked are exactly the releases of the listing that `rule`
/// accepts.
pub proof fn lemma_picked_is_exact(
    decoded: Seq<Result<Release, DriverError>>,
    keep: Seq<bool>,
    rule: spec_fn(Release) -> bool,
)
    requires
        keep.len() == decoded.len(),
        forall|i: int|
            0 <= i < decoded.len() ==> (#[trigger] decoded[i] matches Ok(rel) ==> keep[i] == rule(
                rel,
            )),
    ensures
        forall|rel: Release| #[trigger]
            picked(decoded, keep).contains(rel) <==> decoded.contains(
                Ok::<Release, DriverError>(rel),
            ) && rule(rel),
    decreases decoded.len(),
{
    if decoded.len() > 0 {
        let rest = decoded.drop_first();
        let rest_keep = keep.drop_first();
        assert forall|i: int| 0 <= i < rest.len() implies (#[trigger] rest[i] matches Ok(rel)
            ==> rest_keep[i] == rule(rel)) by {
            assert(rest[i] == decoded[i + 1]);
        }
        lemma_picked_is_exact(rest, rest_keep, rule);
        let tail = picked(rest, rest_keep);
        let all = picked(decoded, keep);
        assert forall|rel: Release| #[trigger]
            all.contains(rel) <==> decoded.contains(Ok::<Release, DriverError>(rel)) && rule(
                rel,
            ) by {
            let item = Ok::<Release, DriverError>(rel);
            // What is picked was picked from the rest or is the first item.
            if all.contains(rel) {
                if tail.contains(rel) {
                    let i = choose|i: int| 0 <= i < rest.len() && rest[i] == item;
                    assert(decoded[i + 1] == item);
                } else {
                    let at = choose|i: int| 0 <= i < all.len() && all[i] == rel;
                    assert(at == tail.len());
                    assert(decoded[0] == item);
                }
            }
            // An accepted item of the listing is picked, as the first or with the rest.
            if decoded.contains(item) && rule(rel) {
                let i = choose|i: int| 0 <= i < decoded.len() && decoded[i] == item;
                if i == 0 {
                    assert(all == tail.push(rel));
                    assert(tail.push(rel)[tail.len() as int] == rel);
                } else {
                    assert(rest[i - 1] == item);
                    assert(tail.contains(rel));
                    let at = choose|k: int| 0 <= k < tail.len() && tail[k] == rel;
                    assert(all[at] == rel);
                }
            }
        }
    }
}

/// The labels of a release object.
pub fn labels_of(rel: &Release) -> (labels: Vec<(String, String)>)
    ensures
        labels.deep_view() == release_labels(*rel),
        distinct_keys(labels@),
{
    let mut labels: Vec<(String, String)> = Vec::new();
    labels.push((String::from_str("name"), rel.name.clone()));
    labels.push((String::from_str("owner"), String::from_str("helm")));
    labels.push((String::from_str("status"), rel.info.status.to_string()));
    labels.push((String::from_str("version"), decimal_string(rel.version as u64)));
    proof {
        lemma_release_labels_distinct(*rel, Seq::empty());
        assert(release_labels(*rel) + Seq::empty() =~= release_labels(*rel));
        lemma_labels_of_distinct_keys(labels);
    }
    labels
}

/// The label `createdAt`, with the time of creation in seconds since the
/// epoch.
pub fn created_at(seconds: i64) -> (labels: Vec<(String, String)>)
    ensures
        labels.deep_view() == time_label("createdAt"@, seconds),
        distinct_keys(labels@),
{
    let mut labels: Vec<(String, String)> = Vec::new();
    labels.push((String::from_str("createdAt"), signed_decimal_string(seconds)));
    labels
}

/// The label `modifiedAt`, with the time of the change in seconds since the
/// epoch.
pub fn modified_at(seconds: i64) -> (labels: Vec<(String, String)>)
    ensures
        labels.deep_view() == time_label("modifiedAt"@, seconds),
        distinct_keys(labels@),
{
    let mut labels: Vec<(String, String)> = Vec::new();
    labels.push((String::from_str("modifiedAt"), signed_decimal_string(seconds)));
    labels
}

/// Writes a list of labels as a selector.
pub fn label_selector(labels: &Vec<(String, String)>) -> (text: String)
    ensures
        text@ == selector(labels.deep_view()),
{
    let mut text = String::new();
    let mut i: usize = 0;
    proof {
        reveal_strlit(",");
        reveal_strlit("=");
    }
    while i < labels.len()
        invariant
            i <= labels.len(),
            text@ == selector(labels.deep_view().take(i as int)),
            ","@ == seq![','],
            "="@ == seq!['='],
        decreases labels.len() - i,
    {
        let ghost before = labels.deep_view().take(i as int);
        let ghost after = labels.deep_view().take(i as int + 1);
        assert(after.drop_last() =~= before);
        if i > 0 {
            text.append(",");
        }
        text.append(labels[i].0.as_str());
        text.append("=");
        text.append(labels[i].1.as_str());
        i = i + 1;
    }
    assert(labels.deep_view().take(i as int) =~= labels.deep_view());
    text
}

/// Takes out of the entries of a stored object the content held under
/// `key`.
pub fn take_entry<V>(entries: Vec<(String, V)>, key: &str) -> (found: Option<V>)
    ensures
        found == lookup(entries@, key@),
{
    let mut rest = entries;
    let mut i: usize = 0;
    assert(entries@.skip(0) =~= entries@);
    while i < rest.len()
        invariant
            rest@ == entries@,
            i <= rest.len(),
            lookup(entries@, key@) == lookup(entries@.skip(i as int), key@),
        decreases rest.len() - i,
    {
        if rest[i].0 == String::from_str(key) {
            let entry = rest.swap_remove(i);
            return Some(entry.1);
        }
        assert(entries@.skip(i as int).drop_first() =~= entries@.skip(i as int + 1));
        i = i + 1;
    }
    None
}

/// Selects the releases of a listing. The items are taken from the last to
/// the first; the first failed item met ends the listing with its error.
/// Otherwise the result holds the releases that `filter` accepted, in the
/// order in which they were taken.
pub fn collect_releases<F: Fn(&Release) -> bool>(
    decoded: Vec<Result<Release, DriverError>>,
    filter: F,
) -> (r: Result<Vec<Release>, DriverError>)
    requires
        forall|rel: &Release| #[trigger] filter.requires((rel,)),
    ensures
        match last_error(decoded@) {
            Some(e) => r == Err::<Vec<Release>, DriverError>(e),
            None => r matches Ok(found) && exists|keep: Seq<bool>| #[trigger]
                answers(filter, decoded@, keep) && found@ == picked(decoded@, keep),
        },
{
    let mut rest = decoded;
    let ghost all = decoded@;
    let ghost mut keep: Seq<bool> = Seq::empty();
    let mut found: Vec<Release> = Vec::new();
    while rest.len() > 0
        invariant
            forall|rel: &Release| #[trigger] filter.requires((rel,)),
            all == decoded@,
            rest@ == all.take(rest.len() as int),
            rest.len() <= all.len(),
            last_error(all) == last_error(rest@),
            answers(filter, all.skip(rest.len() as int), keep),
            found@ == picked(all.skip(rest.len() as int), keep),
        decreases rest.len(),
    {
        let ghost done = all.skip(rest.len() as int);
        let item = rest.pop();
        let ghost now = all.skip(rest.len() as int);
        assert(now.drop_first() =~= done);
        match item {
            Some(Ok(rel)) => {
                let accepted = filter(&rel);
                proof {
                    let wider = seq![accepted] + keep;
                    assert(wider.drop_first() =~= keep);
                    assert forall|i: int| 0 <= i < now.len() implies (#[trigger] now[i] matches Ok(
                        other,
                    ) ==> filter.ensures((&other,), wider[i])) by {
                        if i > 0 {
                            assert(now[i] == done[i - 1]);
                        }
                    }
                    keep = wider;
                }
                if accepted {
                    found.push(rel);
                }
            },
            Some(Err(e)) => {
                return Err(e);
            },
            None => {},
        }
    }
    Ok(found)
}

} // verus!
