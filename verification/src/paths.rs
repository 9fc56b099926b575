use vstd::prelude::*;
use crate::bytes_util::dup_bytes;
use crate::bytes_util::push_all;
use crate::classify::SLASH;
use crate::classify::subvec;

verus! {

pub const DOT_BYTE: u8 = 46;

/// Position of the first occurrence of `c` in `s` at or after the start.
pub open spec fn first_pos(s: Seq<u8>, c: u8) -> Option<int>
    decreases s.len(),
{
    if s.len() == 0 {
        None
    } else if s[0] == c {
        Some(0int)
    } else {
        match first_pos(s.drop_first(), c) {
            Some(i) => Some(i + 1),
            None => None,
        }
    }
}

/// What `first_pos` means.
pub proof fn lemma_first_pos(s: Seq<u8>, c: u8)
    ensures
        match first_pos(s, c) {
            Some(i) => 0 <= i < s.len() && s[i] == c && forall|j: int| 0 <= j < i ==> s[j] != c,
            None => forall|j: int| 0 <= j < s.len() ==> s[j] != c,
        },
    decreases s.len(),
{
    if s.len() > 0 && s[0] != c {
        lemma_first_pos(s.drop_first(), c);
        match first_pos(s.drop_first(), c) {
            Some(i) => {
                assert(s.drop_first()[i] == s[i + 1]);
                assert forall|j: int| 0 <= j < i + 1 implies s[j] != c by {
                    if j > 0 {
                        assert(s.drop_first()[j - 1] == s[j]);
                    }
                }
            },
            None => {
                assert forall|j: int| 0 <= j < s.len() implies s[j] != c by {
                    if j > 0 {
                        assert(s.drop_first()[j - 1] == s[j]);
                    }
                }
            },
        }
    }
}

/// An occurrence with nothing equal before it is the first one.
pub proof fn lemma_first_pos_at(s: Seq<u8>, c: u8, i: int)
    requires
        0 <= i < s.len(),
        s[i] == c,
        forall|j: int| 0 <= j < i ==> s[j] != c,
    ensures
        first_pos(s, c) == Some(i),
    decreases s.len(),
{
    if i > 0 {
        assert forall|j: int| 0 <= j < i - 1 implies s.drop_first()[j] != c by {
            assert(s.drop_first()[j] == s[j + 1]);
        }
        lemma_first_pos_at(s.drop_first(), c, i - 1);
    }
}

/// A missing byte occurs nowhere.
pub proof fn lemma_first_pos_none(s: Seq<u8>, c: u8)
    requires
        forall|j: int| 0 <= j < s.len() ==> s[j] != c,
    ensures
        first_pos(s, c) is None,
    decreases s.len(),
{
    if s.len() > 0 {
        lemma_first_pos_none(s.drop_first(), c);
    }
}

/// The slash-separated segments of a virtual path.
pub open spec fn split_slash(s: Seq<u8>) -> Seq<Seq<u8>>
    decreases s.len(),
    via split_slash_decreases
{
    match first_pos(s, SLASH) {
        Some(k) => seq![s.take(k)] + split_slash(s.skip(k + 1)),
        None => seq![s],
    }
}

#[via_fn]
proof fn split_slash_decreases(s: Seq<u8>) {
    lemma_first_pos(s, SLASH);
}

/// The views of a run of byte vectors.
pub open spec fn views_of(s: Seq<Vec<u8>>) -> Seq<Seq<u8>> {
    s.map_values(|v: Vec<u8>| v@)
}

/// Finds the first occurrence of `c` in `v` at or after `start`.
fn find_from(v: &Vec<u8>, start: usize, c: u8) -> (r: Option<usize>)
    requires
        start <= v@.len(),
    ensures
        match r {
            Some(i) => start <= i < v@.len() && first_pos(v@.skip(start as int), c) == Some(
                i - start,
            ),
            None => first_pos(v@.skip(start as int), c) is None,
        },
{
    let n = v.len();
    let mut i: usize = start;
    while i < n
        invariant
            start <= i <= n,
            n == v@.len(),
            forall|j: int| start <= j < i ==> v@[j] != c,
        decreases n - i,
    {
        if v[i] == c {
            proof {
                assert forall|j: int|
                    0 <= j < i - start implies v@.skip(start as int)[j] != c by {
                    assert(v@.skip(start as int)[j] == v@[j + start]);
                }
                assert(v@.skip(start as int)[i - start] == v@[i as int]);
                lemma_first_pos_at(v@.skip(start as int), c, i - start);
            }
            return Some(i);
        }
        i += 1;
    }
    proof {
        assert forall|j: int| 0 <= j < v@.skip(start as int).len() implies v@.skip(
            start as int,
        )[j] != c by {
            assert(v@.skip(start as int)[j] == v@[j + start]);
        }
        lemma_first_pos_none(v@.skip(start as int), c);
    }
    None
}

/// Splits the bytes of `v` from `start` on, at every slash.
fn split_exec(v: &Vec<u8>, start: usize) -> (r: Vec<Vec<u8>>)
    requires
        start <= v@.len(),
    ensures
        views_of(r@) == split_slash(v@.skip(start as int)),
    decreases v@.len() - start,
{
    let n = v.len();
    match find_from(v, start, SLASH) {
        Some(k) => {
            assert(k < n);
            let seg = subvec(v, start, k);
            let mut rest = split_exec(v, k + 1);
            rest.insert(0, seg);
            proof {
                let tail = v@.skip(start as int);
                assert(tail.take(k - start) =~= v@.subrange(start as int, k as int));
                assert(tail.skip(k - start + 1) =~= v@.skip(k + 1));
                assert(views_of(rest@) =~= split_slash(v@.skip(start as int)));
            }
            rest
        },
        None => {
            let seg = subvec(v, start, v.len());
            let mut out: Vec<Vec<u8>> = Vec::new();
            out.push(seg);
            proof {
                assert(v@.skip(start as int).take(v@.len() - start) =~= v@.skip(start as int));
                assert(v@.subrange(start as int, v@.len() as int) =~= v@.skip(start as int));
                assert(views_of(out@) =~= split_slash(v@.skip(start as int)));
            }
            out
        },
    }
}

/// Lexical normalization of a run of segments over an accumulated stack:
/// empty and `.` segments are dropped, `..` pops, and popping past the root
/// is an escape, reported as failure.
pub open spec fn norm_from(acc: Seq<Seq<u8>>, segs: Seq<Seq<u8>>) -> Option<Seq<Seq<u8>>>
    decreases segs.len(),
{
    if segs.len() == 0 {
        Some(acc)
    } else {
        let s = segs[0];
        if s.len() == 0 || s == seq![DOT_BYTE] {
            norm_from(acc, segs.drop_first())
        } else if s == seq![DOT_BYTE, DOT_BYTE] {
            if acc.len() == 0 {
                None
            } else {
                norm_from(acc.drop_last(), segs.drop_first())
            }
        } else {
            norm_from(acc.push(s), segs.drop_first())
        }
    }
}

/// `base` followed by each kept segment behind one slash.
pub open spec fn join_acc(base: Seq<u8>, acc: Seq<Seq<u8>>) -> Seq<u8>
    decreases acc.len(),
{
    if acc.len() == 0 {
        base
    } else {
        join_acc(base, acc.drop_last()) + seq![SLASH] + acc.last()
    }
}

/// The resolution of a virtual path against a base path: its segments are
/// normalized lexically, an escape past the base yields nothing, and the
/// survivors are appended to the base, one slash before each.
pub open spec fn spec_resolve(base: Seq<u8>, vpath: Seq<u8>) -> Option<Seq<u8>> {
    match norm_from(Seq::empty(), split_slash(vpath)) {
        Some(acc) => Some(join_acc(base, acc)),
        None => None,
    }
}

/// Whether `v` holds one dot.
fn is_dot(v: &Vec<u8>) -> (r: bool)
    ensures
        r == (v@ == seq![DOT_BYTE]),
{
    let r = v.len() == 1 && v[0] == DOT_BYTE;
    proof {
        if r {
            assert(v@ =~= seq![DOT_BYTE]);
        } else {
            assert(v@ != seq![DOT_BYTE]);
        }
    }
    r
}

/// Whether `v` holds two dots.
fn is_dot_dot(v: &Vec<u8>) -> (r: bool)
    ensures
        r == (v@ == seq![DOT_BYTE, DOT_BYTE]),
{
    let r = v.len() == 2 && v[0] == DOT_BYTE && v[1] == DOT_BYTE;
    proof {
        if r {
            assert(v@ =~= seq![DOT_BYTE, DOT_BYTE]);
        } else {
            assert(v@ != seq![DOT_BYTE, DOT_BYTE]);
        }
    }
    r
}

/// Combines a base path with a virtual path, or reports an escape.
pub fn resolve_vpath(base: &Vec<u8>, vpath: &Vec<u8>) -> (r: Option<Vec<u8>>)
    ensures
        match r {
            Some(p) => spec_resolve(base@, vpath@) == Some(p@),
            None => spec_resolve(base@, vpath@) is None,
        },
{
    let segs = split_exec(vpath, 0);
    proof {
        assert(vpath@.skip(0) =~= vpath@);
    }
    let ghost all = views_of(segs@);
    let mut acc: Vec<Vec<u8>> = Vec::new();
    proof {
        assert(views_of(acc@) =~= Seq::<Seq<u8>>::empty());
        assert(all.skip(0) =~= all);
    }
    let n = segs.len();
    let mut i: usize = 0;
    while i < n
        invariant
            0 <= i <= n,
            n == segs@.len(),
            all == views_of(segs@),
            all == split_slash(vpath@),
            norm_from(Seq::empty(), all) == norm_from(views_of(acc@), all.skip(i as int)),
        decreases n - i,
    {
        let seg = &segs[i];
        proof {
            assert(all.skip(i as int)[0] == seg@);
            assert(all.skip(i as int).drop_first() =~= all.skip(i + 1));
        }
        if seg.len() == 0 || is_dot(seg) {
            proof {
                assert(norm_from(views_of(acc@), all.skip(i as int)) == norm_from(
                    views_of(acc@),
                    all.skip(i + 1),
                ));
            }
        } else if is_dot_dot(seg) {
            if acc.len() == 0 {
                proof {
                    assert(views_of(acc@).len() == 0);
                    assert(norm_from(views_of(acc@), all.skip(i as int)) is None);
                    assert(all == split_slash(vpath@));
                    assert(norm_from(Seq::empty(), all) is None);
                    assert(spec_resolve(base@, vpath@) is None);
                }
                return None;
            }
            let ghost prev = acc@;
            acc.pop();
            proof {
                assert(views_of(acc@) =~= views_of(prev).drop_last());
                assert(norm_from(views_of(prev), all.skip(i as int)) == norm_from(
                    views_of(acc@),
                    all.skip(i + 1),
                ));
            }
        } else {
            let kept = dup_bytes(seg);
            let ghost prev = acc@;
            acc.push(kept);
            proof {
                assert(views_of(acc@) =~= views_of(prev).push(seg@));
                assert(norm_from(views_of(prev), all.skip(i as int)) == norm_from(
                    views_of(acc@),
                    all.skip(i + 1),
                ));
            }
        }
        i += 1;
    }
    proof {
        assert(all.skip(n as int) =~= Seq::<Seq<u8>>::empty());
        assert(norm_from(views_of(acc@), Seq::<Seq<u8>>::empty()) == Some(views_of(acc@)));
    }
    let mut out = dup_bytes(base);
    let m = acc.len();
    let mut j: usize = 0;
    while j < m
        invariant
            0 <= j <= m,
            m == acc@.len(),
            norm_from(Seq::empty(), split_slash(vpath@)) == Some(views_of(acc@)),
            out@ == join_acc(base@, views_of(acc@).take(j as int)),
        decreases m - j,
    {
        out.push(SLASH);
        push_all(&mut out, &acc[j]);
        proof {
            let pref = views_of(acc@).take(j + 1);
            assert(pref.drop_last() =~= views_of(acc@).take(j as int));
            assert(pref.last() == acc@[j as int]@);
        }
        j += 1;
    }
    proof {
        assert(views_of(acc@).take(m as int) =~= views_of(acc@));
    }
    Some(out)
}

} // verus!
