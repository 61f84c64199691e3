//! Orderings of releases.

use crate::release::Release;
use std::cmp::Ordering;
use vstd::prelude::*;

verus! {

/// How two versions compare as numbers.
pub open spec fn version_order(a: usize, b: usize) -> Ordering {
    if a < b {
        Ordering::Less
    } else if a == b {
        Ordering::Equal
    } else {
        Ordering::Greater
    }
}

/// Whether `rel` is one of `rels` and none of them has a higher version.
pub open spec fn is_newest(rels: Seq<Release>, rel: Release) -> bool {
    &&& rels.contains(rel)
    &&& forall|i: int| 0 <= i < rels.len() ==> (#[trigger] rels[i]).version <= rel.version
}

/// Orders releases by version alone, lowest first.
pub fn revision(a: &Release, b: &Release) -> (o: Ordering)
    ensures
        o == version_order(a.version, b.version),
{
    if a.version < b.version {
        Ordering::Less
    } else if a.version == b.version {
        Ordering::Equal
    } else {
        Ordering::Greater
    }
}

/// Whether `a` comes before `b` in the order of `revision`.
pub fn precedes(a: &Release, b: &Release) -> (before: bool)
    ensures
        before == (a.version < b.version),
{
    match revision(a, b) {
        Ordering::Less => true,
        _ => false,
    }
}

/// Takes the release of the highest version out of `rels`: `None` where
/// there is no release at all. Where several share the highest version, it
/// is one of them.
pub fn newest(rels: Vec<Release>) -> (found: Option<Release>)
    ensures
        match found {
            Some(rel) => is_newest(rels@, rel),
            None => rels@.len() == 0,
        },
{
    let mut rest = rels;
    if rest.len() == 0 {
        return None;
    }
    let mut best: usize = 0;
    let mut i: usize = 1;
    while i < rest.len()
        invariant
            rest@ == rels@,
            best < i <= rest.len(),
            forall|k: int| 0 <= k < i ==> (#[trigger] rels@[k]).version <= rest[best as int].version,
        decreases rest.len() - i,
    {
        if !precedes(&rest[i], &rest[best]) {
            best = i;
        }
        i = i + 1;
    }
    let rel = rest.swap_remove(best);
    Some(rel)
}

} // verus!
