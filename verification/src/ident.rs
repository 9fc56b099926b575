use vstd::prelude::*;
use crate::bytes_util::bytes_eq;
use crate::bytes_util::dup_bytes;

verus! {

/// A namespace + name + version triple identifying a versioned package.
pub struct PackageCoord {
    pub namespace: Vec<u8>,
    pub name: Vec<u8>,
    pub major: u32,
    pub minor: u32,
    pub patch: u32,
}

/// A stable key identifying one logical file: an optional package coordinate
/// plus a virtual path.
pub struct FileIdent {
    pub package: Option<PackageCoord>,
    pub vpath: Vec<u8>,
}

/// The mathematical key of a package coordinate.
pub open spec fn coord_key(c: PackageCoord) -> (Seq<u8>, Seq<u8>, u32, u32, u32) {
    (c.namespace@, c.name@, c.major, c.minor, c.patch)
}

/// The mathematical key of a file identity. Two identities address the same
/// cache slot exactly when their keys are equal.
pub open spec fn ident_key(i: FileIdent) -> (Option<(Seq<u8>, Seq<u8>, u32, u32, u32)>, Seq<u8>) {
    (
        match i.package {
            Some(c) => Some(coord_key(c)),
            None => None,
        },
        i.vpath@,
    )
}

/// Decides equality of two package coordinates.
pub fn coord_eq(a: &PackageCoord, b: &PackageCoord) -> (r: bool)
    ensures
        r == (coord_key(*a) == coord_key(*b)),
{
    let r = bytes_eq(&a.namespace, &b.namespace) && bytes_eq(&a.name, &b.name) && a.major
        == b.major && a.minor == b.minor && a.patch == b.patch;
    r
}

/// Decides equality of two file identities.
pub fn ident_eq(a: &FileIdent, b: &FileIdent) -> (r: bool)
    ensures
        r == (ident_key(*a) == ident_key(*b)),
{
    let pkg_eq = match (&a.package, &b.package) {
        (Some(ca), Some(cb)) => coord_eq(ca, cb),
        (None, None) => true,
        _ => false,
    };
    pkg_eq && bytes_eq(&a.vpath, &b.vpath)
}

/// Clones a package coordinate.
pub fn dup_coord(c: &PackageCoord) -> (r: PackageCoord)
    ensures
        coord_key(r) == coord_key(*c),
{
    PackageCoord {
        namespace: dup_bytes(&c.namespace),
        name: dup_bytes(&c.name),
        major: c.major,
        minor: c.minor,
        patch: c.patch,
    }
}

/// Clones a file identity.
pub fn dup_ident(i: &FileIdent) -> (r: FileIdent)
    ensures
        ident_key(r) == ident_key(*i),
{
    FileIdent {
        package: match &i.package {
            Some(c) => Some(dup_coord(c)),
            None => None,
        },
        vpath: dup_bytes(&i.vpath),
    }
}

} // verus!
