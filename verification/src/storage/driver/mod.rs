//! The backend contract, the errors a backend reports, and what the two
//! backend variants share.

pub mod codec;
pub mod configmaps;
pub mod object;
pub mod secrets;

use crate::entries::distinct_keys;
use crate::release::Release;
use vstd::prelude::*;
use vstd::string::StringExecFns;

verus! {

/// The structured failure that the backing store sends with a refused call.
#[derive(Clone, Debug, PartialEq, Eq)]
pub struct ApiError {
    pub status: String,
    pub message: String,
    /// The machine-readable reason, such as `NotFound`.
    pub reason: String,
    pub code: u16,
}

/// A failed call to the backing store, as its client reports it: the
/// store's structured failure where it sent one, and the client's words.
#[derive(Clone, Debug, PartialEq, Eq)]
pub struct BackendError {
    pub api_error: Option<ApiError>,
    pub message: String,
}

/// What a backend can report.
#[derive(Clone, Debug, PartialEq, Eq)]
pub enum DriverError {
    /// A failure of the backing store that is none of those below.
    KubeError(BackendError),
    /// The stored payload cannot be read.
    DecodeError { message: String },
    /// The release cannot be written as a payload.
    EncodeError { message: String },
    /// The stored object lacks what a release object must hold.
    InvalidData { message: String },
    /// No release is stored under the key.
    ReleaseNotExist,
    /// A release is stored under the key already.
    ReleaseAlreadyExists,
    /// The backing store found the object malformed.
    MalformedData,
    /// The client's view of the store is stale.
    OutOfSync,
}

/// The error that stands for a failed call to the backing store. The
/// reasons `AlreadyExists`, `NotFound`, `Invalid`, `Conflict` and `Gone` have
/// errors of their own; a failure with another reason, or without a
/// structured part, is passed on whole.
pub open spec fn classify(error: BackendError) -> DriverError {
    match error.api_error {
        None => DriverError::KubeError(error),
        Some(api) => {
            if api.reason@ == "AlreadyExists"@ {
                DriverError::ReleaseAlreadyExists
            } else if api.reason@ == "NotFound"@ {
                DriverError::ReleaseNotExist
            } else if api.reason@ == "Invalid"@ {
                DriverError::MalformedData
            } else if api.reason@ == "Conflict"@ || api.reason@ == "Gone"@ {
                DriverError::OutOfSync
            } else {
                DriverError::KubeError(error)
            }
        },
    }
}

fn is_reason(api: &ApiError, word: &str) -> (b: bool)
    ensures
        b == (api.reason@ == word@),
{
    api.reason == String::from_str(word)
}

impl From<BackendError> for DriverError {
    fn from(error: BackendError) -> (r: DriverError) {
        match &error.api_error {
            None => DriverError::KubeError(error),
            Some(api) => {
                if is_reason(api, "AlreadyExists") {
                    DriverError::ReleaseAlreadyExists
                } else if is_reason(api, "NotFound") {
                    DriverError::ReleaseNotExist
                } else if is_reason(api, "Invalid") {
                    DriverError::MalformedData
                } else if is_reason(api, "Conflict") || is_reason(api, "Gone") {
                    DriverError::OutOfSync
                } else {
                    DriverError::KubeError(error)
                }
            },
        }
    }
}

impl vstd::std_specs::convert::FromSpecImpl<BackendError> for DriverError {
    open spec fn obeys_from_spec() -> bool {
        true
    }

    open spec fn from_spec(error: BackendError) -> DriverError {
        classify(error)
    }
}

impl DriverError {
    /// The words of an error, without the message it carries.
    pub open spec fn headline(self) -> Seq<char> {
        match self {
            DriverError::KubeError(_) => "unable to perform kubernetes operation"@,
            DriverError::DecodeError { .. } => "unable to decode release: "@,
            DriverError::EncodeError { .. } => "unable to encode release: "@,
            DriverError::InvalidData { .. } =>
                "unable to decode release data due to invalid or missing data: "@,
            DriverError::ReleaseNotExist => "release was not found"@,
            DriverError::ReleaseAlreadyExists => "release already exists"@,
            DriverError::MalformedData => "storage object has malformed data"@,
            DriverError::OutOfSync =>
                "client is out of sync with server and/or has stale data"@,
        }
    }

    /// The message that an error carries, empty where it carries none.
    pub open spec fn detail(self) -> Seq<char> {
        match self {
            DriverError::DecodeError { message } => message@,
            DriverError::EncodeError { message } => message@,
            DriverError::InvalidData { message } => message@,
            _ => Seq::<char>::empty(),
        }
    }

    /// The error in words: its headline, then the message it carries.
    pub fn to_string(&self) -> (s: String)
        ensures
            s@ == self.headline() + self.detail(),
    {
        match self {
            DriverError::KubeError(_) => String::from_str(
                "unable to perform kubernetes operation",
            ),
            DriverError::DecodeError { message } => {
                let mut s = String::from_str("unable to decode release: ");
                s.append(message.as_str());
                s
            },
            DriverError::EncodeError { message } => {
                let mut s = String::from_str("unable to encode release: ");
                s.append(message.as_str());
                s
            },
            DriverError::InvalidData { message } => {
                let mut s = String::from_str(
                    "unable to decode release data due to invalid or missing data: ",
                );
                s.append(message.as_str());
                s
            },
            DriverError::ReleaseNotExist => String::from_str("release was not found"),
            DriverError::ReleaseAlreadyExists => String::from_str("release already exists"),
            DriverError::MalformedData => String::from_str("storage object has malformed data"),
            DriverError::OutOfSync => String::from_str(
                "client is out of sync with server and/or has stale data",
            ),
        }
    }
}

/// What every backend offers. The storage engine reaches the backing store
/// through these operations alone.
///
/// What an operation returns depends on the store, so the contract promises
/// little: of `list`, that every release it returns is one that its filter
/// accepts.
pub trait Driver {
    /// The name of the backend, for diagnostics.
    fn name(&self) -> String;

    /// Stores `rel` as a new object named `key`. Fails where an object of
    /// that name exists.
    fn create(&self, key: &String, rel: Release) -> Result<(), DriverError>;

    /// Overwrites the object named `key` with `rel`. Fails where there is no
    /// such object.
    fn update(&self, key: &String, rel: Release) -> Result<(), DriverError>;

    /// Removes the object named `key` and returns the release it held.
    fn delete(&self, key: &String) -> Result<Release, DriverError>;

    /// The release held by the object named `key`.
    fn get(&self, key: &String) -> Result<Release, DriverError>;

    /// The releases of all objects that this storage scheme owns, as far as
    /// `filter` accepts them, in no particular order.
    fn list<F: Fn(&Release) -> bool>(&self, filter: F) -> (r: Result<Vec<Release>, DriverError>)
        requires
            forall|rel: &Release| #[trigger] filter.requires((rel,)),
        ensures
            r matches Ok(found) ==> forall|i: int|
                0 <= i < found.len() ==> filter.ensures((&#[trigger] found[i],), true),
    ;

    /// The releases of all objects that carry every label of `labels`.
    /// `labels` stands for a map: no key occurs twice.
    fn query(&self, labels: Vec<(String, String)>) -> Result<Vec<Release>, DriverError>
        requires
            distinct_keys(labels@),
    ;
}

} // verus!
