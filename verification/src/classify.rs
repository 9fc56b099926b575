use vstd::prelude::*;
use crate::bytes_util::dup_bytes;

verus! {

pub const SLASH: u8 = 47;
pub const DOT: u8 = 46;

/// Position of the last occurrence of `c` in `s`, if any.
pub open spec fn last_pos(s: Seq<u8>, c: u8) -> Option<int>
    decreases s.len(),
{
    if s.len() == 0 {
        None
    } else if s[s.len() - 1] == c {
        Some(s.len() - 1)
    } else {
        last_pos(s.drop_last(), c)
    }
}

/// A missing byte occurs nowhere.
pub proof fn lemma_last_pos_none(s: Seq<u8>, c: u8)
    requires
        forall|j: int| 0 <= j < s.len() ==> s[j] != c,
    ensures
        last_pos(s, c) is None,
    decreases s.len(),
{
    if s.len() > 0 {
        lemma_last_pos_none(s.drop_last(), c);
    }
}

/// What `last_pos` means: the found position holds the byte with nothing
/// equal after it, and a missing byte occurs nowhere.
pub proof fn lemma_last_pos_charac(s: Seq<u8>, c: u8)
    ensures
        match last_pos(s, c) {
            Some(k) => 0 <= k < s.len() && s[k] == c && forall|j: int| k < j < s.len() ==> s[j] != c,
            None => forall|j: int| 0 <= j < s.len() ==> s[j] != c,
        },
    decreases s.len(),
{
    if s.len() > 0 && s[s.len() - 1] != c {
        lemma_last_pos_charac(s.drop_last(), c);
        match last_pos(s.drop_last(), c) {
            Some(k) => {
                assert(s.drop_last()[k] == s[k]);
                assert forall|j: int| k < j < s.len() implies s[j] != c by {
                    if j < s.len() - 1 {
                        assert(s.drop_last()[j] == s[j]);
                    }
                }
            },
            None => {
                assert forall|j: int| 0 <= j < s.len() implies s[j] != c by {
                    if j < s.len() - 1 {
                        assert(s.drop_last()[j] == s[j]);
                    }
                }
            },
        }
    }
}

/// An occurrence with nothing equal after it is the last one.
pub proof fn lemma_last_pos_at(s: Seq<u8>, c: u8, i: int)
    requires
        0 <= i < s.len(),
        s[i] == c,
        forall|j: int| i < j < s.len() ==> s[j] != c,
    ensures
        last_pos(s, c) == Some(i),
    decreases s.len(),
{
    if i < s.len() - 1 {
        lemma_last_pos_at(s.drop_last(), c, i);
    }
}

/// Finds the last occurrence of `c` in `v`.
pub fn rfind(v: &Vec<u8>, c: u8) -> (r: Option<usize>)
    ensures
        match r {
            Some(i) => i < v@.len() && last_pos(v@, c) == Some(i as int),
            None => last_pos(v@, c) is None,
        },
{
    let mut i: usize = v.len();
    while i > 0
        invariant
            i <= v@.len(),
            forall|j: int| i <= j < v@.len() ==> v@[j] != c,
        decreases i,
    {
        i -= 1;
        if v[i] == c {
            proof {
                lemma_last_pos_at(v@, c, i as int);
            }
            return Some(i);
        }
    }
    proof {
        lemma_last_pos_none(v@, c);
    }
    None
}

/// Copies the byte range `[lo, hi)` of `v`.
pub fn subvec(v: &Vec<u8>, lo: usize, hi: usize) -> (r: Vec<u8>)
    requires
        lo <= hi <= v@.len(),
    ensures
        r@ == v@.subrange(lo as int, hi as int),
{
    let mut out: Vec<u8> = Vec::new();
    let mut i: usize = lo;
    while i < hi
        invariant
            lo <= i <= hi <= v@.len(),
            out@ == v@.subrange(lo as int, i as int),
        decreases hi - i,
    {
        out.push(v[i]);
        assert(out@ =~= v@.subrange(lo as int, i + 1));
        i += 1;
    }
    out
}

/// ASCII lower case of one byte.
pub open spec fn ascii_lower(c: u8) -> u8 {
    if 65 <= c <= 90 {
        (c + 32) as u8
    } else {
        c
    }
}

/// ASCII lower case of a byte sequence.
pub open spec fn lower_seq(s: Seq<u8>) -> Seq<u8> {
    Seq::new(s.len(), |i: int| ascii_lower(s[i]))
}

/// Lowers every ASCII letter of `v`.
pub fn lower_vec(v: &Vec<u8>) -> (r: Vec<u8>)
    ensures
        r@ == lower_seq(v@),
{
    let mut out: Vec<u8> = Vec::new();
    let n = v.len();
    let mut i: usize = 0;
    while i < n
        invariant
            n == v@.len(),
            0 <= i <= n,
            out@.len() == i,
            forall|j: int| 0 <= j < i ==> out@[j] == ascii_lower(v@[j]),
        decreases n - i,
    {
        let c = v[i];
        if 65 <= c && c <= 90 {
            out.push(c + 32);
        } else {
            out.push(c);
        }
        i += 1;
    }
    assert(out@ =~= lower_seq(v@));
    out
}

/// The file-name portion of a path: everything after the last slash.
pub open spec fn file_name_of(p: Seq<u8>) -> Seq<u8> {
    match last_pos(p, SLASH) {
        Some(k) => p.subrange(k + 1, p.len() as int),
        None => p,
    }
}

/// The extension of a path: the part of the file name after its last dot,
/// provided that dot is not the file name's first byte.
pub open spec fn ext_of(p: Seq<u8>) -> Option<Seq<u8>> {
    let n = file_name_of(p);
    match last_pos(n, DOT) {
        Some(k) => if k > 0 {
            Some(n.subrange(k + 1, n.len() as int))
        } else {
            None
        },
        None => None,
    }
}

/// The fixed allowlist of binary extensions: image, paged, archive, font and
/// executable-module formats. `e` is expected already lower-cased.
pub open spec fn is_binary_ext(e: Seq<u8>) -> bool {
    ||| e == seq![106u8, 112, 103]  // jpg
    ||| e == seq![106u8, 112, 101, 103]  // jpeg
    ||| e == seq![112u8, 110, 103]  // png
    ||| e == seq![103u8, 105, 102]  // gif
    ||| e == seq![98u8, 109, 112]  // bmp
    ||| e == seq![119u8, 101, 98, 112]  // webp
    ||| e == seq![115u8, 118, 103]  // svg
    ||| e == seq![112u8, 100, 102]  // pdf
    ||| e == seq![122u8, 105, 112]  // zip
    ||| e == seq![119u8, 97, 115, 109]  // wasm
    ||| e == seq![116u8, 116, 102]  // ttf
    ||| e == seq![111u8, 116, 102]  // otf
    ||| e == seq![119u8, 111, 102, 102]  // woff
    ||| e == seq![119u8, 111, 102, 102, 50]  // woff2
}

/// A path is fetched as binary exactly when its extension, lower-cased, is on
/// the allowlist; every other path, extensionless ones included, is text.
pub open spec fn is_binary_path(p: Seq<u8>) -> bool {
    match ext_of(p) {
        Some(e) => is_binary_ext(lower_seq(e)),
        None => false,
    }
}

/// Whether `v` equals the three given bytes.
fn is_lit3(v: &Vec<u8>, a: u8, b: u8, c: u8) -> (r: bool)
    ensures
        r == (v@ == seq![a, b, c]),
{
    let r = v.len() == 3 && v[0] == a && v[1] == b && v[2] == c;
    proof {
        if r {
            assert(v@ =~= seq![a, b, c]);
        } else {
            assert(v@ != seq![a, b, c]);
        }
    }
    r
}

/// Whether `v` equals the four given bytes.
fn is_lit4(v: &Vec<u8>, a: u8, b: u8, c: u8, d: u8) -> (r: bool)
    ensures
        r == (v@ == seq![a, b, c, d]),
{
    let r = v.len() == 4 && v[0] == a && v[1] == b && v[2] == c && v[3] == d;
    proof {
        if r {
            assert(v@ =~= seq![a, b, c, d]);
        } else {
            assert(v@ != seq![a, b, c, d]);
        }
    }
    r
}

/// Whether `v` equals the five given bytes.
fn is_lit5(v: &Vec<u8>, a: u8, b: u8, c: u8, d: u8, e: u8) -> (r: bool)
    ensures
        r == (v@ == seq![a, b, c, d, e]),
{
    let r = v.len() == 5 && v[0] == a && v[1] == b && v[2] == c && v[3] == d && v[4] == e;
    proof {
        if r {
            assert(v@ =~= seq![a, b, c, d, e]);
        } else {
            assert(v@ != seq![a, b, c, d, e]);
        }
    }
    r
}

/// Decides membership of a lower-cased extension in the binary allowlist.
fn ext_matches(e: &Vec<u8>) -> (r: bool)
    ensures
        r == is_binary_ext(e@),
{
    is_lit3(e, 106, 112, 103) || is_lit4(e, 106, 112, 101, 103) || is_lit3(e, 112, 110, 103)
        || is_lit3(e, 103, 105, 102) || is_lit3(e, 98, 109, 112) || is_lit4(e, 119, 101, 98, 112)
        || is_lit3(e, 115, 118, 103) || is_lit3(e, 112, 100, 102) || is_lit3(e, 122, 105, 112)
        || is_lit4(e, 119, 97, 115, 109) || is_lit3(e, 116, 116, 102) || is_lit3(e, 111, 116, 102)
        || is_lit4(e, 119, 111, 102, 102) || is_lit5(e, 119, 111, 102, 102, 50)
}

/// Classifies a resolved path as binary or text by its extension.
pub fn is_binary_file(path: &Vec<u8>) -> (r: bool)
    ensures
        r == is_binary_path(path@),
{
    let plen = path.len();
    let name = match rfind(path, SLASH) {
        Some(k) => {
            assert(k < plen);
            subvec(path, k + 1, plen)
        },
        None => dup_bytes(path),
    };
    assert(name@ == file_name_of(path@));
    match rfind(&name, DOT) {
        Some(k) => {
            if k > 0 {
                let nlen = name.len();
                assert(k < nlen);
                let ext = subvec(&name, k + 1, nlen);
                let low = lower_vec(&ext);
                ext_matches(&low)
            } else {
                false
            }
        },
        None => false,
    }
}

/// The marker appended to a host key for a binary fetch.
pub open spec fn spec_binary_marker() -> Seq<u8> {
    seq![58u8, 98, 105, 110, 97, 114, 121]
}

/// Builds the `:binary` marker appended to binary host keys.
pub fn binary_marker() -> (r: Vec<u8>)
    ensures
        r@ == spec_binary_marker(),
{
    let mut v: Vec<u8> = Vec::new();
    v.push(58);
    v.push(98);
    v.push(105);
    v.push(110);
    v.push(97);
    v.push(114);
    v.push(121);
    assert(v@ =~= spec_binary_marker());
    v
}

} // verus!
