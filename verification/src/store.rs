use vstd::prelude::*;
use crate::ident::FileIdent;
use crate::ident::ident_eq;
use crate::ident::ident_key;
use crate::record::FileEntry;

verus! {

/// The slot that holds `k` in a run of identities, searched from the front.
pub open spec fn find_key(
    s: Seq<FileIdent>,
    k: (Option<(Seq<u8>, Seq<u8>, u32, u32, u32)>, Seq<u8>),
) -> Option<int>
    decreases s.len(),
{
    if s.len() == 0 {
        None
    } else if ident_key(s[0]) == k {
        Some(0int)
    } else {
        match find_key(s.drop_first(), k) {
            Some(i) => Some(i + 1),
            None => None,
        }
    }
}

/// What `find_key` means: the found slot holds the key, and a missing key
/// occurs in no slot.
pub proof fn lemma_find_key(s: Seq<FileIdent>, k: (Option<(Seq<u8>, Seq<u8>, u32, u32, u32)>, Seq<u8>))
    ensures
        match find_key(s, k) {
            Some(i) => 0 <= i < s.len() && ident_key(s[i]) == k,
            None => forall|j: int| 0 <= j < s.len() ==> ident_key(s[j]) != k,
        },
    decreases s.len(),
{
    if s.len() > 0 && ident_key(s[0]) != k {
        lemma_find_key(s.drop_first(), k);
        assert forall|j: int| 0 <= j < s.len() && find_key(s, k) is None implies ident_key(
            s[j],
        ) != k by {
            if j > 0 {
                assert(s.drop_first()[j - 1] == s[j]);
            }
        }
    }
}

/// Appending an identity with a fresh key leaves every earlier search
/// untouched, and a search for the fresh key finds the new slot.
pub proof fn lemma_find_key_push(
    s: Seq<FileIdent>,
    k: (Option<(Seq<u8>, Seq<u8>, u32, u32, u32)>, Seq<u8>),
    x: FileIdent,
)
    ensures
        find_key(s, k) is Some ==> find_key(s.push(x), k) == find_key(s, k),
        find_key(s, k) is None && ident_key(x) == k ==> find_key(s.push(x), k) == Some(
            s.len() as int,
        ),
        find_key(s, k) is None && ident_key(x) != k ==> find_key(s.push(x), k) is None,
    decreases s.len(),
{
    if s.len() == 0 {
        assert(s.push(x)[0] == x);
        assert(s.push(x).drop_first() =~= Seq::<FileIdent>::empty());
        if ident_key(x) == k {
            assert(find_key(s.push(x), k) == Some(0int));
        } else {
            assert(find_key(s.push(x), k) == find_key(s.push(x).drop_first(), k));
            assert(find_key(Seq::<FileIdent>::empty(), k) is None);
        }
    } else {
        assert(s.push(x)[0] == s[0]);
        assert(s.push(x).drop_first() =~= s.drop_first().push(x));
        lemma_find_key_push(s.drop_first(), k, x);
    }
}

/// A slot whose key matches, with no earlier match, is the one a search finds.
pub proof fn lemma_find_key_at(
    s: Seq<FileIdent>,
    k: (Option<(Seq<u8>, Seq<u8>, u32, u32, u32)>, Seq<u8>),
    i: int,
)
    requires
        0 <= i < s.len(),
        ident_key(s[i]) == k,
        forall|j: int| 0 <= j < i ==> ident_key(s[j]) != k,
    ensures
        find_key(s, k) == Some(i),
    decreases s.len(),
{
    if i > 0 {
        assert forall|j: int| 0 <= j < i - 1 implies ident_key(s.drop_first()[j]) != k by {
            assert(s.drop_first()[j] == s[j + 1]);
        }
        assert(s.drop_first()[i - 1] == s[i]);
        lemma_find_key_at(s.drop_first(), k, i - 1);
    }
}

/// The virtual file store: identities and their records, in lockstep, with at
/// most one slot per identity key.
pub struct FileStore {
    pub idents: Vec<FileIdent>,
    pub entries: Vec<FileEntry>,
}

impl FileStore {
    /// Identities and records stay in lockstep, records are well-formed, and
    /// no identity key occupies two slots.
    pub open spec fn wf(self) -> bool {
        &&& self.idents@.len() == self.entries@.len()
        &&& forall|i: int| 0 <= i < self.entries@.len() ==> self.entries@[i].wf()
        &&& forall|i: int, j: int|
            0 <= i < j < self.idents@.len() ==> ident_key(self.idents@[i]) != ident_key(
                self.idents@[j],
            )
    }

    /// The slot of an identity, by its key.
    pub open spec fn spec_find(self, k: (Option<(Seq<u8>, Seq<u8>, u32, u32, u32)>, Seq<u8>)) -> Option<int> {
        find_key(self.idents@, k)
    }

    /// An empty store.
    pub fn new() -> (r: FileStore)
        ensures
            r.wf(),
            r.idents@.len() == 0,
            r.entries@.len() == 0,
    {
        FileStore { idents: Vec::new(), entries: Vec::new() }
    }

    /// Finds the cache slot of an identity, if one exists.
    pub fn lookup(&self, id: &FileIdent) -> (r: Option<usize>)
        ensures
            match r {
                Some(i) => i < self.idents@.len() && self.spec_find(ident_key(*id)) == Some(
                    i as int,
                ),
                None => self.spec_find(ident_key(*id)) is None,
            },
    {
        let n = self.idents.len();
        let mut i: usize = 0;
        while i < n
            invariant
                n == self.idents@.len(),
                0 <= i <= n,
                forall|j: int| 0 <= j < i ==> ident_key(self.idents@[j]) != ident_key(*id),
            decreases n - i,
        {
            if ident_eq(&self.idents[i], id) {
                proof {
                    lemma_find_key_at(self.idents@, ident_key(*id), i as int);
                }
                return Some(i);
            }
            i += 1;
        }
        proof {
            lemma_find_key(self.idents@, ident_key(*id));
        }
        None
    }

    /// Inserts a record for an identity that has no slot yet; every existing
    /// slot keeps its position and contents.
    pub fn insert(&mut self, id: FileIdent, entry: FileEntry)
        requires
            old(self).wf(),
            old(self).spec_find(ident_key(id)) is None,
            entry.wf(),
        ensures
            final(self).wf(),
            final(self).idents@ == old(self).idents@.push(id),
            final(self).entries@ == old(self).entries@.push(entry),
            final(self).spec_find(ident_key(id)) == Some(old(self).idents@.len() as int),
            forall|k: (Option<(Seq<u8>, Seq<u8>, u32, u32, u32)>, Seq<u8>)|
                k != ident_key(id) ==> final(self).spec_find(k) == old(self).spec_find(k),
    {
        proof {
            lemma_find_key(self.idents@, ident_key(id));
        }
        self.idents.push(id);
        self.entries.push(entry);
        proof {
            lemma_find_key_push(old(self).idents@, ident_key(id), id);
            assert forall|k: (Option<(Seq<u8>, Seq<u8>, u32, u32, u32)>, Seq<u8>)|
                k != ident_key(id) implies final(self).spec_find(k) == old(self).spec_find(k) by {
                lemma_find_key_push(old(self).idents@, k, id);
            }
        }
    }

    /// Replaces the record held in an existing slot.
    pub fn replace_at(&mut self, i: usize, entry: FileEntry)
        requires
            old(self).wf(),
            i < old(self).entries@.len(),
            entry.wf(),
        ensures
            final(self).wf(),
            final(self).idents@ == old(self).idents@,
            final(self).entries@ == old(self).entries@.update(i as int, entry),
    {
        let slot = &mut self.entries[i];
        *slot = entry;
    }

    /// The source view served from a slot, memoizing it in the record.
    pub fn source_at(&mut self, i: usize) -> (r: Vec<u8>)
        requires
            old(self).wf(),
            i < old(self).entries@.len(),
        ensures
            final(self).wf(),
            final(self).idents@ == old(self).idents@,
            final(self).entries@.len() == old(self).entries@.len(),
            r@ == crate::record::source_view(old(self).entries@[i as int].content),
            forall|j: int|
                0 <= j < old(self).entries@.len() ==> final(self).entries@[j].content == old(
                    self,
                ).entries@[j].content,
    {
        let slot = &mut self.entries[i];
        let r = slot.source();
        r
    }

    /// The byte view served from a slot, memoizing it in the record.
    pub fn bytes_at(&mut self, i: usize) -> (r: Vec<u8>)
        requires
            old(self).wf(),
            i < old(self).entries@.len(),
        ensures
            final(self).wf(),
            final(self).idents@ == old(self).idents@,
            final(self).entries@.len() == old(self).entries@.len(),
            r@ == crate::record::bytes_view(old(self).entries@[i as int].content),
            forall|j: int|
                0 <= j < old(self).entries@.len() ==> final(self).entries@[j].content == old(
                    self,
                ).entries@[j].content,
    {
        let slot = &mut self.entries[i];
        let r = slot.bytes();
        r
    }
}

} // verus!
