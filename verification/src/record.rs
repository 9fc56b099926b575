use vstd::prelude::*;
use crate::bytes_util::dup_bytes;

verus! {

/// Whether one logical file holds UTF-8 text or an opaque binary blob.
pub enum FileContent {
    Text(Vec<u8>),
    Binary(Vec<u8>),
}

/// The source view of a content: the text itself for a text file, and the
/// empty sequence for a binary file.
pub open spec fn source_view(c: FileContent) -> Seq<u8> {
    match c {
        FileContent::Text(t) => t@,
        FileContent::Binary(_) => Seq::empty(),
    }
}

/// The byte view of a content: its payload, whichever representation is held.
pub open spec fn bytes_view(c: FileContent) -> Seq<u8> {
    match c {
        FileContent::Text(t) => t@,
        FileContent::Binary(b) => b@,
    }
}

/// One file's immutable content plus its two lazily-computed derived views,
/// each computed at most once and then served from the cache.
pub struct FileEntry {
    pub content: FileContent,
    pub source_cache: Option<Vec<u8>>,
    pub bytes_cache: Option<Vec<u8>>,
}

impl FileEntry {
    /// A cached derived view, when present, holds exactly the view of the
    /// immutable content.
    pub open spec fn wf(self) -> bool {
        &&& match self.source_cache {
            Some(s) => s@ == source_view(self.content),
            None => true,
        }
        &&& match self.bytes_cache {
            Some(b) => b@ == bytes_view(self.content),
            None => true,
        }
    }

    /// A fresh record over text content; no derived view is computed yet.
    pub fn new(text: Vec<u8>) -> (r: FileEntry)
        ensures
            r.wf(),
            r.content matches FileContent::Text(t) && t@ == text@,
            r.source_cache is None,
            r.bytes_cache is None,
    {
        FileEntry { content: FileContent::Text(text), source_cache: None, bytes_cache: None }
    }

    /// A fresh record over binary content; no derived view is computed yet.
    pub fn new_binary(data: Vec<u8>) -> (r: FileEntry)
        ensures
            r.wf(),
            r.content matches FileContent::Binary(d) && d@ == data@,
            r.source_cache is None,
            r.bytes_cache is None,
    {
        FileEntry { content: FileContent::Binary(data), source_cache: None, bytes_cache: None }
    }

    /// The parsed-source view: computed from the content on first access,
    /// cached, and afterwards served bit-identically from the cache.
    pub fn source(&mut self) -> (r: Vec<u8>)
        requires
            old(self).wf(),
        ensures
            final(self).wf(),
            r@ == source_view(old(self).content),
            final(self).content == old(self).content,
            final(self).source_cache matches Some(s) && s@ == source_view(old(self).content),
            final(self).bytes_cache == old(self).bytes_cache,
    {
        match &self.source_cache {
            Some(s) => dup_bytes(s),
            None => {
                let computed = match &self.content {
                    FileContent::Text(t) => dup_bytes(t),
                    FileContent::Binary(_) => Vec::new(),
                };
                let r = dup_bytes(&computed);
                self.source_cache = Some(computed);
                assert(r@ =~= source_view(self.content));
                r
            },
        }
    }

    /// The byte-buffer view: computed from the content on first access,
    /// cached, and afterwards served bit-identically from the cache.
    pub fn bytes(&mut self) -> (r: Vec<u8>)
        requires
            old(self).wf(),
        ensures
            final(self).wf(),
            r@ == bytes_view(old(self).content),
            final(self).content == old(self).content,
            final(self).bytes_cache matches Some(b) && b@ == bytes_view(old(self).content),
            final(self).source_cache == old(self).source_cache,
    {
        match &self.bytes_cache {
            Some(b) => dup_bytes(b),
            None => {
                let computed = match &self.content {
                    FileContent::Text(t) => dup_bytes(t),
                    FileContent::Binary(d) => dup_bytes(d),
                };
                let r = dup_bytes(&computed);
                self.bytes_cache = Some(computed);
                assert(r@ =~= bytes_view(self.content));
                r
            },
        }
    }
}

} // verus!
