use vstd::prelude::*;

verus! {

/// The failures a compiler-facing read can surface.
#[derive(Debug)]
pub enum WorldFailure {
    /// The host reported that the requested path does not exist; carries the key.
    NotFound(Vec<u8>),
    AccessDenied,
    IsDirectory,
    PackageNotFound,
    /// Any unclassified host-reported failure, with an optional hint.
    Other(Option<Vec<u8>>),
}

/// A failure recorded for one package coordinate.
#[derive(Debug)]
pub enum PackageFailure {
    NotFound,
    Other(Option<Vec<u8>>),
}

/// What the host hands back when a request fails: a numeric code or a message.
#[derive(Debug)]
pub enum HostError {
    Code(i64),
    Message(Option<Vec<u8>>),
}

/// The hint attached to a numeric host failure that no code explains.
pub open spec fn spec_hint() -> Seq<u8> {
    seq![
        115, 101, 101, 32, 108, 111, 103, 115, 32, 102, 111, 114, 32, 100,
        101, 116, 97, 105, 108, 115,
    ]
}

/// Builds the hint message attached to unexplained numeric host failures.
pub fn hint_bytes() -> (r: Vec<u8>)
    ensures
        r@ == spec_hint(),
{
    let mut v: Vec<u8> = Vec::new();
    v.push(115);
    v.push(101);
    v.push(101);
    v.push(32);
    v.push(108);
    v.push(111);
    v.push(103);
    v.push(115);
    v.push(32);
    v.push(102);
    v.push(111);
    v.push(114);
    v.push(32);
    v.push(100);
    v.push(101);
    v.push(116);
    v.push(97);
    v.push(105);
    v.push(108);
    v.push(115);
    assert(v@ =~= spec_hint());
    v
}

/// Spec view of a file failure, exposing the bytes a variant carries.
pub open spec fn matches_file_failure(r: WorldFailure, key: Seq<u8>, e: HostError) -> bool {
    match e {
        HostError::Code(c) => {
            if c == 2 {
                r matches WorldFailure::NotFound(p) && p@ == key
            } else if c == 3 {
                r matches WorldFailure::AccessDenied
            } else if c == 4 {
                r matches WorldFailure::IsDirectory
            } else {
                r matches WorldFailure::Other(m) && m matches Some(h) && h@ == spec_hint()
            }
        },
        HostError::Message(m) => {
            r matches WorldFailure::Other(o) && match (o, m) {
                (Some(a), Some(b)) => a@ == b@,
                (None, None) => true,
                _ => false,
            }
        },
    }
}

/// Maps a host error for a file request under `key` into the failure taxonomy:
/// code 2 is not-found (carrying the key), 3 access-denied, 4 is-a-directory,
/// any other code an unclassified failure with a fixed hint, and a message
/// error an unclassified failure carrying that message.
pub fn file_failure_of(key: &Vec<u8>, e: HostError) -> (r: WorldFailure)
    ensures
        matches_file_failure(r, key@, e),
{
    match e {
        HostError::Code(c) => {
            if c == 2 {
                WorldFailure::NotFound(crate::bytes_util::dup_bytes(key))
            } else if c == 3 {
                WorldFailure::AccessDenied
            } else if c == 4 {
                WorldFailure::IsDirectory
            } else {
                WorldFailure::Other(Some(hint_bytes()))
            }
        },
        HostError::Message(m) => WorldFailure::Other(m),
    }
}

/// Spec view of a package failure produced from one host error.
pub open spec fn matches_package_failure(r: PackageFailure, e: HostError) -> bool {
    match e {
        HostError::Code(c) => {
            if c == 2 {
                r matches PackageFailure::NotFound
            } else {
                r matches PackageFailure::Other(m) && m matches Some(h) && h@ == spec_hint()
            }
        },
        HostError::Message(m) => {
            r matches PackageFailure::Other(o) && match (o, m) {
                (Some(a), Some(b)) => a@ == b@,
                (None, None) => true,
                _ => false,
            }
        },
    }
}

/// Maps a host error for a package request: code 2 means the package is
/// unknown; everything else is an unclassified failure.
pub fn package_failure_of(e: HostError) -> (r: PackageFailure)
    ensures
        matches_package_failure(r, e),
{
    match e {
        HostError::Code(c) => {
            if c == 2 {
                PackageFailure::NotFound
            } else {
                PackageFailure::Other(Some(hint_bytes()))
            }
        },
        HostError::Message(m) => PackageFailure::Other(m),
    }
}

} // verus!
