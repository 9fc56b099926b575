use vstd::prelude::*;
use crate::bytes_util::dup_bytes;
use crate::bytes_util::push_all;
use crate::errors::PackageFailure;
use crate::ident::PackageCoord;
use crate::ident::coord_eq;
use crate::ident::coord_key;
use crate::ident::dup_coord;

verus! {

/// The decimal digits of a number, most significant first.
pub open spec fn dec_rep(n: nat) -> Seq<u8>
    decreases n,
{
    if n < 10 {
        seq![(48 + n) as u8]
    } else {
        dec_rep(n / 10).push((48 + n % 10) as u8)
    }
}

/// Writes a number in decimal.
pub fn u32_to_dec(n: u32) -> (r: Vec<u8>)
    ensures
        r@ == dec_rep(n as nat),
    decreases n,
{
    if n < 10 {
        let mut v: Vec<u8> = Vec::new();
        v.push(48 + n as u8);
        assert(v@ =~= dec_rep(n as nat));
        v
    } else {
        assert(n / 10 < n && n / 10 >= 1) by (nonlinear_arith)
            requires n >= 10;
        assert(n % 10 < 10) by (nonlinear_arith);
        let mut v = u32_to_dec(n / 10);
        v.push(48 + (n % 10) as u8);
        v
    }
}

/// The host key of a package coordinate: `@namespace/name/major.minor.patch`.
pub open spec fn spec_package_key(c: PackageCoord) -> Seq<u8> {
    seq![64u8] + c.namespace@ + seq![47u8] + c.name@ + seq![47u8] + dec_rep(c.major as nat)
        + seq![46u8] + dec_rep(c.minor as nat) + seq![46u8] + dec_rep(c.patch as nat)
}

/// Builds the host key of a package coordinate.
pub fn package_key(c: &PackageCoord) -> (r: Vec<u8>)
    ensures
        r@ == spec_package_key(*c),
{
    let mut v: Vec<u8> = Vec::new();
    v.push(64);
    push_all(&mut v, &c.namespace);
    v.push(47);
    push_all(&mut v, &c.name);
    v.push(47);
    let maj = u32_to_dec(c.major);
    push_all(&mut v, &maj);
    v.push(46);
    let min = u32_to_dec(c.minor);
    push_all(&mut v, &min);
    v.push(46);
    let pat = u32_to_dec(c.patch);
    push_all(&mut v, &pat);
    assert(v@ =~= spec_package_key(*c));
    v
}

/// View-level equality of two memoized package results.
pub open spec fn pkg_res_eq(
    a: Result<Vec<u8>, PackageFailure>,
    b: Result<Vec<u8>, PackageFailure>,
) -> bool {
    match (a, b) {
        (Ok(x), Ok(y)) => x@ == y@,
        (Err(PackageFailure::NotFound), Err(PackageFailure::NotFound)) => true,
        (Err(PackageFailure::Other(ma)), Err(PackageFailure::Other(mb))) => match (ma, mb) {
            (Some(x), Some(y)) => x@ == y@,
            (None, None) => true,
            _ => false,
        },
        _ => false,
    }
}

/// Clones a memoized package result.
pub fn dup_pkg_result(r: &Result<Vec<u8>, PackageFailure>) -> (o: Result<Vec<u8>, PackageFailure>)
    ensures
        pkg_res_eq(o, *r),
{
    match r {
        Ok(p) => Ok(dup_bytes(p)),
        Err(PackageFailure::NotFound) => Err(PackageFailure::NotFound),
        Err(PackageFailure::Other(m)) => Err(
            PackageFailure::Other(
                match m {
                    Some(x) => Some(dup_bytes(x)),
                    None => None,
                },
            ),
        ),
    }
}

/// The slot that holds coordinate key `k`, searched from the front.
pub open spec fn find_coord(
    s: Seq<(PackageCoord, Result<Vec<u8>, PackageFailure>)>,
    k: (Seq<u8>, Seq<u8>, u32, u32, u32),
) -> Option<int>
    decreases s.len(),
{
    if s.len() == 0 {
        None
    } else if coord_key(s[0].0) == k {
        Some(0int)
    } else {
        match find_coord(s.drop_first(), k) {
            Some(i) => Some(i + 1),
            None => None,
        }
    }
}

/// What `find_coord` means.
pub proof fn lemma_find_coord(
    s: Seq<(PackageCoord, Result<Vec<u8>, PackageFailure>)>,
    k: (Seq<u8>, Seq<u8>, u32, u32, u32),
)
    ensures
        match find_coord(s, k) {
            Some(i) => 0 <= i < s.len() && coord_key(s[i].0) == k,
            None => forall|j: int| 0 <= j < s.len() ==> coord_key(s[j].0) != k,
        },
    decreases s.len(),
{
    if s.len() > 0 && coord_key(s[0].0) != k {
        lemma_find_coord(s.drop_first(), k);
        assert forall|j: int| 0 <= j < s.len() && find_coord(s, k) is None implies coord_key(
            s[j].0,
        ) != k by {
            if j > 0 {
                assert(s.drop_first()[j - 1] == s[j]);
            }
        }
    }
}

/// A matching slot with no earlier match is the one a search finds.
pub proof fn lemma_find_coord_at(
    s: Seq<(PackageCoord, Result<Vec<u8>, PackageFailure>)>,
    k: (Seq<u8>, Seq<u8>, u32, u32, u32),
    i: int,
)
    requires
        0 <= i < s.len(),
        coord_key(s[i].0) == k,
        forall|j: int| 0 <= j < i ==> coord_key(s[j].0) != k,
    ensures
        find_coord(s, k) == Some(i),
    decreases s.len(),
{
    if i > 0 {
        assert forall|j: int| 0 <= j < i - 1 implies coord_key(s.drop_first()[j].0) != k by {
            assert(s.drop_first()[j] == s[j + 1]);
        }
        assert(s.drop_first()[i - 1] == s[i]);
        lemma_find_coord_at(s.drop_first(), k, i - 1);
    }
}

/// Recording a fresh coordinate leaves every other search untouched, and a
/// search for the fresh one finds the new slot.
pub proof fn lemma_find_coord_push(
    s: Seq<(PackageCoord, Result<Vec<u8>, PackageFailure>)>,
    k: (Seq<u8>, Seq<u8>, u32, u32, u32),
    x: (PackageCoord, Result<Vec<u8>, PackageFailure>),
)
    ensures
        find_coord(s, k) is Some ==> find_coord(s.push(x), k) == find_coord(s, k),
        find_coord(s, k) is None && coord_key(x.0) == k ==> find_coord(s.push(x), k) == Some(
            s.len() as int,
        ),
        find_coord(s, k) is None && coord_key(x.0) != k ==> find_coord(s.push(x), k) is None,
    decreases s.len(),
{
    if s.len() == 0 {
        assert(s.push(x)[0] == x);
        assert(s.push(x).drop_first() =~= Seq::<(
            PackageCoord,
            Result<Vec<u8>, PackageFailure>,
        )>::empty());
        if coord_key(x.0) == k {
            assert(find_coord(s.push(x), k) == Some(0int));
        } else {
            assert(find_coord(s.push(x), k) == find_coord(s.push(x).drop_first(), k));
        }
    } else {
        assert(s.push(x)[0] == s[0]);
        assert(s.push(x).drop_first() =~= s.drop_first().push(x));
        lemma_find_coord_push(s.drop_first(), k, x);
    }
}

/// The package-path cache: one slot per coordinate, holding the resolved root
/// path or the recorded failure. Failures are memoized like successes, so a
/// missing package is reported identically on every later reference without
/// another host request.
pub struct PackageCache {
    pub entries: Vec<(PackageCoord, Result<Vec<u8>, PackageFailure>)>,
}

impl PackageCache {
    /// No coordinate key occupies two slots.
    pub open spec fn wf(self) -> bool {
        forall|i: int, j: int|
            0 <= i < j < self.entries@.len() ==> coord_key(self.entries@[i].0) != coord_key(
                self.entries@[j].0,
            )
    }

    /// The slot of a coordinate, by its key.
    pub open spec fn spec_find(self, k: (Seq<u8>, Seq<u8>, u32, u32, u32)) -> Option<int> {
        find_coord(self.entries@, k)
    }

    /// An empty cache.
    pub fn new() -> (r: PackageCache)
        ensures
            r.wf(),
            r.entries@.len() == 0,
    {
        PackageCache { entries: Vec::new() }
    }

    /// Drops every memoized resolution.
    pub fn clear(&mut self)
        ensures
            final(self).wf(),
            final(self).entries@.len() == 0,
    {
        self.entries = Vec::new();
    }

    /// The memoized result for a coordinate, if one was recorded.
    pub fn lookup(&self, c: &PackageCoord) -> (r: Option<Result<Vec<u8>, PackageFailure>>)
        ensures
            match r {
                Some(v) => self.spec_find(coord_key(*c)) matches Some(i) && pkg_res_eq(
                    v,
                    self.entries@[i].1,
                ),
                None => self.spec_find(coord_key(*c)) is None,
            },
    {
        let n = self.entries.len();
        let mut i: usize = 0;
        while i < n
            invariant
                n == self.entries@.len(),
                0 <= i <= n,
                forall|j: int| 0 <= j < i ==> coord_key(self.entries@[j].0) != coord_key(*c),
            decreases n - i,
        {
            if coord_eq(&self.entries[i].0, c) {
                proof {
                    lemma_find_coord_at(self.entries@, coord_key(*c), i as int);
                }
                return Some(dup_pkg_result(&self.entries[i].1));
            }
            i += 1;
        }
        proof {
            lemma_find_coord(self.entries@, coord_key(*c));
        }
        None
    }

    /// Records the outcome of one resolution, success or failure alike; every
    /// earlier slot is untouched.
    pub fn record(&mut self, c: &PackageCoord, outcome: Result<Vec<u8>, PackageFailure>)
        requires
            old(self).wf(),
            old(self).spec_find(coord_key(*c)) is None,
        ensures
            final(self).wf(),
            final(self).entries@.len() == old(self).entries@.len() + 1,
            final(self).spec_find(coord_key(*c)) matches Some(i) && i == old(
                self,
            ).entries@.len() && final(self).entries@[i].1 == outcome,
            forall|k: (Seq<u8>, Seq<u8>, u32, u32, u32)|
                k != coord_key(*c) ==> final(self).spec_find(k) == old(self).spec_find(k),
            forall|j: int|
                0 <= j < old(self).entries@.len() ==> final(self).entries@[j] == old(
                    self,
                ).entries@[j],
    {
        proof {
            lemma_find_coord(self.entries@, coord_key(*c));
        }
        let kept = dup_coord(c);
        let ghost prev = self.entries@;
        let ghost item = (kept, outcome);
        self.entries.push((kept, outcome));
        proof {
            lemma_find_coord_push(prev, coord_key(*c), self.entries@[prev.len() as int]);
            assert forall|k: (Seq<u8>, Seq<u8>, u32, u32, u32)|
                k != coord_key(*c) implies final(self).spec_find(k) == old(self).spec_find(
                k,
            ) by {
                lemma_find_coord_push(prev, k, self.entries@[prev.len() as int]);
            }
        }
    }
}

} // verus!
