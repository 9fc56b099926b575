use vstd::prelude::*;
use crate::classify::DOT;
use crate::classify::SLASH;
use crate::classify::ext_of;
use crate::classify::file_name_of;
use crate::classify::is_binary_ext;
use crate::classify::is_binary_path;
use crate::classify::last_pos;
use crate::classify::lemma_last_pos_at;
use crate::classify::lemma_last_pos_charac;
use crate::classify::lower_seq;
use crate::dates::CivilDate;
use crate::dates::spec_day_index;
use crate::errors::PackageFailure;
use crate::ident::FileIdent;
use crate::ident::PackageCoord;
use crate::ident::ident_key;
use crate::packages::find_coord;
use crate::packages::lemma_find_coord_push;
use crate::packages::pkg_res_eq;
use crate::record::FileContent;
use crate::record::bytes_view;
use crate::record::source_view;
use crate::store::FileStore;
use crate::store::lemma_find_key;
use crate::world::SystemWorld;

verus! {

/// Law: repeated reads of one identity within a compilation return
/// bit-identical derived views. A read leaves the record's content in place
/// (the contracts of `source` and `file`), and both derived views are
/// functions of that content alone, so any two reads agree byte for byte.
pub proof fn law_repeated_reads_identical(
    c: FileContent,
    s1: Seq<u8>,
    s2: Seq<u8>,
    b1: Seq<u8>,
    b2: Seq<u8>,
)
    requires
        s1 == source_view(c),
        s2 == source_view(c),
        b1 == bytes_view(c),
        b2 == bytes_view(c),
    ensures
        s1 == s2,
        b1 == b2,
{
}

/// Law: identities with different virtual paths have different cache keys,
/// whatever the rest of the identity holds.
pub proof fn law_distinct_vpaths_distinct_keys(a: FileIdent, b: FileIdent)
    requires
        a.vpath@ != b.vpath@,
    ensures
        ident_key(a) != ident_key(b),
{
}

/// Law: two identities with different keys never share a cache slot: each
/// maintains its own record, with no cross-identity aliasing.
pub proof fn law_distinct_keys_distinct_slots(s: FileStore, a: FileIdent, b: FileIdent, i: int, j: int)
    requires
        s.wf(),
        ident_key(a) != ident_key(b),
        s.spec_find(ident_key(a)) == Some(i),
        s.spec_find(ident_key(b)) == Some(j),
    ensures
        i != j,
{
    lemma_find_key(s.idents@, ident_key(a));
    lemma_find_key(s.idents@, ident_key(b));
}

/// Law: a recorded package resolution, failure and success alike, keeps its
/// slot whatever is recorded afterwards, so a failed lookup is replayed
/// identically on every later reference without another host request.
pub proof fn law_package_result_memoized(
    s: Seq<(PackageCoord, Result<Vec<u8>, PackageFailure>)>,
    k: (Seq<u8>, Seq<u8>, u32, u32, u32),
    x: (PackageCoord, Result<Vec<u8>, PackageFailure>),
)
    requires
        find_coord(s, k) is Some,
    ensures
        find_coord(s.push(x), k) == find_coord(s, k),
        s.push(x)[find_coord(s, k).unwrap()] == s[find_coord(s, k).unwrap()],
{
    lemma_find_coord_push(s, k, x);
    crate::packages::lemma_find_coord(s, k);
}

/// Law: what two reads of one memoized package slot hand out is the same
/// resolution, byte for byte.
pub proof fn law_package_replay_identical(
    v1: Result<Vec<u8>, PackageFailure>,
    v2: Result<Vec<u8>, PackageFailure>,
    stored: Result<Vec<u8>, PackageFailure>,
)
    requires
        pkg_res_eq(v1, stored),
        pkg_res_eq(v2, stored),
    ensures
        pkg_res_eq(v1, v2),
{
}

/// Law: with the instant memoized for one compilation, the date a query
/// returns is a function of that instant and the offset alone: two queries
/// with the same offset return the same date, however much real time passed
/// between them.
pub proof fn law_today_deterministic(
    ts: (i64, i32),
    offset: Option<i64>,
    r1: Option<CivilDate>,
    r2: Option<CivilDate>,
)
    requires
        SystemWorld::today_rel(ts, offset, r1),
        SystemWorld::today_rel(ts, offset, r2),
    ensures
        r1 == r2,
{
    match SystemWorld::spec_today_secs(ts, offset) {
        Some(secs) => {
            match (r1, r2) {
                (Some(c1), Some(c2)) => {
                    assert(c1.year == c2.year && c1.month == c2.month && c1.day == c2.day);
                },
                _ => {},
            }
        },
        None => {},
    }
}

/// Law: offsets a day apart select consecutive day indices, so their civil
/// dates follow simple hour arithmetic, month and year rollover included.
pub proof fn law_next_day_offset(ts: (i64, i32), o1: i64, o2: i64, s1: int, s2: int)
    requires
        o2 == o1 + 24,
        SystemWorld::spec_today_secs(ts, Some(o1)) == Some(s1),
        SystemWorld::spec_today_secs(ts, Some(o2)) == Some(s2),
    ensures
        s2 == s1 + 86400,
        spec_day_index(s2) == spec_day_index(s1) + 1,
{
    vstd::arithmetic::div_mod::lemma_fundamental_div_mod(s1, 86400);
    vstd::arithmetic::div_mod::lemma_mod_bound(s1, 86400);
    let q = s1 / 86400;
    let rm = s1 % 86400;
    assert(s2 == (q + 1) * 86400 + rm) by (nonlinear_arith)
        requires
            s1 == 86400 * q + rm,
            s2 == s1 + 86400,
    ;
    vstd::arithmetic::div_mod::lemma_fundamental_div_mod_converse_div(s2, 86400, q + 1, rm);
}

/// Law: every path whose file name ends in a real `.png` extension is
/// classified binary, and so is fetched through the binary host-request form.
pub proof fn law_png_is_binary(p: Seq<u8>)
    requires
        p.len() >= 5,
        p[p.len() - 4] == 46,
        p[p.len() - 3] == 112,
        p[p.len() - 2] == 110,
        p[p.len() - 1] == 103,
        p[p.len() - 5] != SLASH,
    ensures
        is_binary_path(p),
{
    let n = p.len() as int;
    lemma_last_pos_charac(p, SLASH);
    let name = file_name_of(p);
    match last_pos(p, SLASH) {
        None => {
            assert(name == p);
        },
        Some(k) => {
            assert(p[k] == SLASH);
            assert(k != n - 4 && k != n - 3 && k != n - 2 && k != n - 1 && k != n - 5);
            assert(k <= n - 6);
            assert(name == p.subrange(k + 1, n));
            assert(name.len() == n - k - 1 >= 5);
        },
    }
    let m = name.len() as int;
    assert(m >= 5);
    assert(name[m - 4] == 46 && name[m - 3] == 112 && name[m - 2] == 110 && name[m - 1] == 103);
    assert forall|j: int| m - 4 < j < m implies name[j] != DOT by {}
    lemma_last_pos_at(name, DOT, m - 4);
    let e = name.subrange(m - 3, m);
    assert(ext_of(p) == Some(e));
    assert(e =~= seq![112u8, 110u8, 103u8]);
    assert(lower_seq(e) =~= seq![112u8, 110u8, 103u8]);
    assert(is_binary_ext(lower_seq(e)));
}

} // verus!
