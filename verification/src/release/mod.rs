//! The release record and its status vocabulary.

pub mod sort;

use crate::entries::{distinct_keys, has_distinct_keys};
use vstd::prelude::*;
use vstd::string::StringExecFns;

verus! {

/// Where a release stands in its life.
#[derive(Clone, Copy, Debug, PartialEq, Eq, Structural)]
pub enum Status {
    Unknown,
    Deployed,
    Uninstalled,
    Superseded,
    Failed,
    Uninstalling,
    PendingInstall,
    PendingUpgrade,
    PendingRollback,
}

impl Status {
    /// The canonical text of a status: lower case, words joined by a hyphen.
    /// It is shown to users and stored as the value of the `status` label, so
    /// label queries match on exactly these texts.
    pub open spec fn canonical(self) -> Seq<char> {
        match self {
            Status::Unknown => "unknown"@,
            Status::Deployed => "deployed"@,
            Status::Uninstalled => "uninstalled"@,
            Status::Superseded => "superseded"@,
            Status::Failed => "failed"@,
            Status::Uninstalling => "uninstalling"@,
            Status::PendingInstall => "pending-install"@,
            Status::PendingUpgrade => "pending-upgrade"@,
            Status::PendingRollback => "pending-rollback"@,
        }
    }

    /// The canonical text of this status.
    pub fn to_string(&self) -> (s: String)
        ensures
            s@ == self.canonical(),
    {
        match self {
            Status::Unknown => String::from_str("unknown"),
            Status::Deployed => String::from_str("deployed"),
            Status::Uninstalled => String::from_str("uninstalled"),
            Status::Superseded => String::from_str("superseded"),
            Status::Failed => String::from_str("failed"),
            Status::Uninstalling => String::from_str("uninstalling"),
            Status::PendingInstall => String::from_str("pending-install"),
            Status::PendingUpgrade => String::from_str("pending-upgrade"),
            Status::PendingRollback => String::from_str("pending-rollback"),
        }
    }

    /// No two statuses share a canonical text, so a label value names one
    /// status at most.
    pub proof fn lemma_canonical_injective(a: Status, b: Status)
        requires
            a.canonical() == b.canonical(),
        ensures
            a == b,
    {
        reveal_strlit("unknown");
        reveal_strlit("deployed");
        reveal_strlit("uninstalled");
        reveal_strlit("superseded");
        reveal_strlit("failed");
        reveal_strlit("uninstalling");
        reveal_strlit("pending-install");
        reveal_strlit("pending-upgrade");
        reveal_strlit("pending-rollback");
        assert("unknown"@.len() == 7);
        assert("deployed"@.len() == 8);
        assert("uninstalled"@.len() == 11);
        assert("superseded"@.len() == 10);
        assert("failed"@.len() == 6);
        assert("uninstalling"@.len() == 12);
        assert("pending-install"@.len() == 15);
        assert("pending-upgrade"@.len() == 15);
        assert("pending-rollback"@.len() == 16);
        assert("pending-install"@[8] == 'i');
        assert("pending-upgrade"@[8] == 'u');
    }
}

impl Default for Status {
    fn default() -> (s: Self)
        ensures
            s == Status::Unknown,
    {
        Status::Unknown
    }
}

/// A point in time: whole seconds since the Unix epoch, and the nanoseconds
/// past that second.
#[derive(Clone, Copy, Debug, PartialEq, Eq, Structural)]
pub struct Timestamp {
    pub seconds: i64,
    pub nanos: u32,
}

/// What is recorded about a release beside its content.
#[derive(Clone, Debug, PartialEq, Eq)]
pub struct Info {
    /// When the release was first deployed.
    pub first_deployed: Option<Timestamp>,
    /// When the release was last deployed.
    pub last_deployed: Option<Timestamp>,
    /// When the release was deleted.
    pub deleted: Option<Timestamp>,
    /// A human-friendly log entry about this release.
    pub description: String,
    /// The current state of the release.
    pub status: Status,
    /// The rendered notes, if there are any.
    pub notes: String,
}

impl Info {
    /// Nothing recorded: no time, empty texts, status unknown.
    pub open spec fn is_blank(&self) -> bool {
        &&& self.first_deployed is None
        &&& self.last_deployed is None
        &&& self.deleted is None
        &&& self.description@.len() == 0
        &&& self.status == Status::Unknown
        &&& self.notes@.len() == 0
    }
}

impl Default for Info {
    fn default() -> (info: Self)
        ensures
            info.is_blank(),
    {
        Info {
            first_deployed: None,
            last_deployed: None,
            deleted: None,
            description: String::new(),
            status: Status::Unknown,
            notes: String::new(),
        }
    }
}

/// One version of a deployed unit. `name` and `version` together identify
/// the record; `name` alone is shared by all versions of the unit.
#[derive(Clone, Debug, PartialEq, Eq)]
pub struct Release {
    pub name: String,
    pub info: Info,
    /// The user-supplied parameters: each key with its value as JSON text.
    /// The list stands for a map: in a well-formed record no key occurs
    /// twice. `==` compares the entries in their order, so records that are
    /// to be compared keep them in one order, such as sorted by key.
    pub config: Vec<(String, String)>,
    /// The rendered output.
    pub manifest: String,
    pub version: usize,
    /// The namespace the release is meant for.
    pub namespace: String,
}

impl Release {
    /// Whether the parameters form a map: no key occurs twice.
    pub open spec fn well_formed(&self) -> bool {
        distinct_keys(self.config@)
    }

    /// Tells whether the record is well-formed.
    pub fn is_well_formed(&self) -> (ok: bool)
        ensures
            ok == self.well_formed(),
    {
        has_distinct_keys(&self.config)
    }

    /// The empty record: version 0, blank info, no text, no parameters.
    pub open spec fn is_blank(&self) -> bool {
        &&& self.name@.len() == 0
        &&& self.info.is_blank()
        &&& self.config@.len() == 0
        &&& self.manifest@.len() == 0
        &&& self.version == 0
        &&& self.namespace@.len() == 0
    }
}

impl Default for Release {
    fn default() -> (release: Self)
        ensures
            release.is_blank(),
            release.well_formed(),
    {
        Release {
            name: String::new(),
            info: Info::default(),
            config: Vec::new(),
            manifest: String::new(),
            version: 0,
            namespace: String::new(),
        }
    }
}

} // verus!
