use vstd::prelude::*;
use vstd::pervasive::unreached;
use crate::bytes_util::dup_bytes;
use crate::bytes_util::push_all;
use crate::classify::is_binary_file;
use crate::classify::is_binary_path;
use crate::classify::binary_marker;
use crate::classify::spec_binary_marker;
use crate::dates::CivilDate;
use crate::dates::civil_from_day;
use crate::dates::read_wall_clock;
use crate::dates::spec_civil;
use crate::dates::spec_day_index;
use crate::dates::SECS_BOUND;
use crate::errors::HostError;
use crate::errors::PackageFailure;
use crate::errors::WorldFailure;
use crate::errors::matches_file_failure;
use crate::errors::matches_package_failure;
use crate::errors::file_failure_of;
use crate::errors::package_failure_of;
use crate::ident::FileIdent;
use crate::ident::PackageCoord;
use crate::ident::coord_key;
use crate::ident::dup_ident;
use crate::ident::ident_key;
use crate::packages::PackageCache;
use crate::packages::package_key;
use crate::packages::spec_package_key;
use crate::paths::resolve_vpath;
use crate::paths::spec_resolve;
use crate::record::FileContent;
use crate::record::FileEntry;
use crate::record::bytes_view;
use crate::record::source_view;
use crate::store::FileStore;

verus! {

/// View-level equality of two optional byte vectors.
pub open spec fn opt_bytes_eq(a: Option<Vec<u8>>, b: Option<Vec<u8>>) -> bool {
    match (a, b) {
        (Some(x), Some(y)) => x@ == y@,
        (None, None) => true,
        _ => false,
    }
}

/// What the world asks of its caller next for one identity.
pub enum Step {
    /// The identity is cached in the given slot; no host work is needed.
    Ready(usize),
    /// The identity names a package that is not resolved yet: ask the host
    /// under the carried key, then hand the answer to `supply_package`.
    NeedPackage(Vec<u8>),
    /// The file itself must be fetched: ask the host under the carried key,
    /// then hand the answer to `supply_file`.
    NeedFile { key: Vec<u8>, binary: bool },
    /// The identity cannot be served; no host request would help.
    Failed(WorldFailure),
}

/// How a file request for a settled base path must look: an escaping virtual
/// path is refused outright, and otherwise the host key is the resolved path,
/// with the binary marker appended exactly for allowlisted extensions.
pub open spec fn file_request_matches(r: Step, base: Seq<u8>, vpath: Seq<u8>) -> bool {
    match spec_resolve(base, vpath) {
        None => r matches Step::Failed(f) && f matches WorldFailure::AccessDenied,
        Some(p) => r matches Step::NeedFile { key, binary } && binary == is_binary_path(p)
            && key@ == if is_binary_path(p) {
            p + spec_binary_marker()
        } else {
            p
        },
    }
}

/// The compilation world: the project root, the current main identity, the
/// file store, the package-path cache, and the instant memoized for date
/// queries of the current compilation.
pub struct SystemWorld {
    pub root: Vec<u8>,
    pub main: FileIdent,
    pub store: FileStore,
    pub packages: PackageCache,
    pub now: Option<(i64, i32)>,
    pub fonts: Vec<typst::text::Font>,
}

impl SystemWorld {
    /// The caches are well-formed and a memoized instant is one a wall clock
    /// can produce.
    pub open spec fn wf(self) -> bool {
        &&& self.store.wf()
        &&& self.packages.wf()
        &&& match self.now {
            Some(t) => -86400 < t.1 < 86400 && -8_400_000_000_000 < t.0 < 8_400_000_000_000,
            None => true,
        }
    }

    /// The base path an identity resolves against, once every needed package
    /// resolution is on record.
    pub open spec fn base_of(self, id: FileIdent) -> Option<Seq<u8>> {
        match id.package {
            Some(c) => match self.packages.spec_find(coord_key(c)) {
                Some(i) => match self.packages.entries@[i].1 {
                    Ok(root) => Some(root@),
                    Err(_) => None,
                },
                None => None,
            },
            None => Some(self.root@),
        }
    }

    /// A fresh world over a project root and a seeded catalog: empty caches,
    /// no main identity, no memoized instant, and exactly the given faces.
    /// The caller seeds the catalog from the embedded bundle
    /// (`seed_fonts` over `embedded_font_data`); no host work happens here.
    pub fn new(root: Vec<u8>, fonts: Vec<typst::text::Font>) -> (r: SystemWorld)
        ensures
            r.wf(),
            r.root@ == root@,
            r.fonts@ == fonts@,
            r.store.idents@.len() == 0,
            r.packages.entries@.len() == 0,
            r.now is None,
            r.main.package is None,
            r.main.vpath@ == Seq::<u8>::empty(),
    {
        SystemWorld {
            root,
            main: FileIdent { package: None, vpath: Vec::new() },
            store: FileStore::new(),
            packages: PackageCache::new(),
            now: None,
            fonts,
        }
    }

    /// Decides what must happen next for one identity: serve it from its
    /// cache slot, ask the host for a package root or for the file itself,
    /// or refuse. A cached identity never reaches the host again.
    pub fn resolve_step(&self, id: &FileIdent) -> (r: Step)
        ensures
            ({
                let k = ident_key(*id);
                match self.store.spec_find(k) {
                    Some(i) => r matches Step::Ready(j) && j as int == i,
                    None => match id.package {
                        Some(c) => match self.packages.spec_find(coord_key(c)) {
                            None => r matches Step::NeedPackage(key) && key@ == spec_package_key(
                                c,
                            ),
                            Some(pi) => match self.packages.entries@[pi].1 {
                                Err(PackageFailure::NotFound) => r matches Step::Failed(f)
                                    && f matches WorldFailure::PackageNotFound,
                                Err(PackageFailure::Other(m)) => r matches Step::Failed(f) && (
                                f matches WorldFailure::Other(o) && opt_bytes_eq(o, m)),
                                Ok(_) => file_request_matches(
                                    r,
                                    self.base_of(*id).unwrap(),
                                    id.vpath@,
                                ),
                            },
                        },
                        None => file_request_matches(r, self.root@, id.vpath@),
                    },
                }
            }),
    {
        match self.store.lookup(id) {
            Some(i) => Step::Ready(i),
            None => match &id.package {
                Some(c) => match self.packages.lookup(c) {
                    None => Step::NeedPackage(package_key(c)),
                    Some(res) => match res {
                        Err(PackageFailure::NotFound) => Step::Failed(
                            WorldFailure::PackageNotFound,
                        ),
                        Err(PackageFailure::Other(m)) => Step::Failed(WorldFailure::Other(m)),
                        Ok(root) => Self::file_request(&root, &id.vpath),
                    },
                },
                None => Self::file_request(&self.root, &id.vpath),
            },
        }
    }

    /// Builds the host request for a file under a settled base path.
    fn file_request(base: &Vec<u8>, vpath: &Vec<u8>) -> (r: Step)
        ensures
            file_request_matches(r, base@, vpath@),
    {
        match resolve_vpath(base, vpath) {
            None => Step::Failed(WorldFailure::AccessDenied),
            Some(p) => {
                let binary = is_binary_file(&p);
                let mut key = dup_bytes(&p);
                if binary {
                    let marker = binary_marker();
                    push_all(&mut key, &marker);
                }
                Step::NeedFile { key, binary }
            },
        }
    }

    /// Records the host's answer to a package request, success or failure
    /// alike; a failure is memoized and replayed like a success.
    pub fn supply_package(&mut self, c: &PackageCoord, reply: Result<Vec<u8>, HostError>)
        requires
            old(self).wf(),
            old(self).packages.spec_find(coord_key(*c)) is None,
        ensures
            final(self).wf(),
            final(self).root@ == old(self).root@,
            final(self).fonts@ == old(self).fonts@,
            final(self).main == old(self).main,
            final(self).store == old(self).store,
            final(self).now == old(self).now,
            final(self).packages.spec_find(coord_key(*c)) matches Some(i) && i == old(self).packages.entries@.len() && ({
                let stored = final(self).packages.entries@[i].1;
                match reply {
                    Ok(p) => stored matches Ok(q) && q@ == p@,
                    Err(e) => stored matches Err(f) && matches_package_failure(f, e),
                }
            }),
            forall|k: (Seq<u8>, Seq<u8>, u32, u32, u32)|
                k != coord_key(*c) ==> final(self).packages.spec_find(k) == old(self).packages.spec_find(k),
            forall|j: int|
                0 <= j < old(self).packages.entries@.len() ==> final(self).packages.entries@[j]
                    == old(self).packages.entries@[j],
    {
        let outcome: Result<Vec<u8>, PackageFailure> = match reply {
            Ok(p) => Ok(p),
            Err(e) => Err(package_failure_of(e)),
        };
        self.packages.record(c, outcome);
    }

    /// Records the host's answer to a file request. A successful fetch is
    /// wrapped as a fresh record, binary or text as the resolved path
    /// classifies, and cached under the identity; a failed fetch is mapped
    /// into the failure taxonomy and nothing is cached.
    pub fn supply_file(&mut self, id: &FileIdent, reply: Result<Vec<u8>, HostError>) -> (r: Result<
        usize,
        WorldFailure,
    >)
        requires
            old(self).wf(),
            old(self).store.spec_find(ident_key(*id)) is None,
            old(self).base_of(*id) is Some,
            spec_resolve(old(self).base_of(*id).unwrap(), id.vpath@) is Some,
        ensures
            final(self).wf(),
            final(self).root@ == old(self).root@,
            final(self).fonts@ == old(self).fonts@,
            final(self).main == old(self).main,
            final(self).packages == old(self).packages,
            final(self).now == old(self).now,
            ({
                let p = spec_resolve(old(self).base_of(*id).unwrap(), id.vpath@).unwrap();
                match reply {
                    Ok(data) => r matches Ok(i) && i == old(self).store.idents@.len() && final(self).store.spec_find(ident_key(*id)) == Some(i as int) && final(self).store.entries@.len() == old(self).store.entries@.len() + 1 && ({
                        let c = final(self).store.entries@[i as int].content;
                        if is_binary_path(p) {
                            c matches FileContent::Binary(d) && d@ == data@
                        } else {
                            c matches FileContent::Text(t) && t@ == data@
                        }
                    }) && (forall|k: (Option<(Seq<u8>, Seq<u8>, u32, u32, u32)>, Seq<u8>)|
                        k != ident_key(*id) ==> final(self).store.spec_find(k) == old(self).store.spec_find(k)) && (forall|j: int|
                        0 <= j < old(self).store.entries@.len() ==> final(self).store.entries@[j]
                            == old(self).store.entries@[j]),
                    Err(e) => r matches Err(f) && matches_file_failure(f, p, e) && final(self).store == old(self).store,
                }
            }),
    {
        let base: Vec<u8> = match &id.package {
            Some(c) => match self.packages.lookup(c) {
                Some(res) => match res {
                    Ok(root) => root,
                    Err(_) => unreached(),
                },
                None => unreached(),
            },
            None => dup_bytes(&self.root),
        };
        let resolved = match resolve_vpath(&base, &id.vpath) {
            Some(p) => p,
            None => unreached(),
        };
        let binary = is_binary_file(&resolved);
        match reply {
            Ok(data) => {
                let entry = if binary {
                    FileEntry::new_binary(data)
                } else {
                    FileEntry::new(data)
                };
                let kept = dup_ident(id);
                let idx = self.store.idents.len();
                self.store.insert(kept, entry);
                Ok(idx)
            },
            Err(e) => Err(file_failure_of(&resolved, e)),
        }
    }

    /// Starts one compilation: the package cache and the memoized instant are
    /// reset, the given virtual path becomes the main identity, and its text
    /// is stored directly as a fresh record, bypassing the host. Records of
    /// earlier compilations stay cached.
    pub fn begin_compile(&mut self, text: Vec<u8>, path: Vec<u8>)
        requires
            old(self).wf(),
        ensures
            final(self).wf(),
            final(self).root@ == old(self).root@,
            final(self).fonts@ == old(self).fonts@,
            final(self).packages.entries@.len() == 0,
            final(self).now is None,
            final(self).main.package is None,
            final(self).main.vpath@ == path@,
            final(self).store.spec_find((None, path@)) matches Some(i) && ({
                let e = final(self).store.entries@[i];
                e.content matches FileContent::Text(t) && t@ == text@ && e.source_cache is None
                    && e.bytes_cache is None
            }),
            forall|k: (Option<(Seq<u8>, Seq<u8>, u32, u32, u32)>, Seq<u8>)|
                k != (None::<(Seq<u8>, Seq<u8>, u32, u32, u32)>, path@) ==> final(self).store.spec_find(k) == old(self).store.spec_find(k),
    {
        self.packages.clear();
        self.now = None;
        let main = FileIdent { package: None, vpath: path };
        let entry = FileEntry::new(text);
        let kept = dup_ident(&main);
        match self.store.lookup(&main) {
            Some(i) => {
                self.store.replace_at(i, entry);
            },
            None => {
                self.store.insert(kept, entry);
            },
        }
        self.main = main;
    }

    /// The source view of a cached slot: the text for a text file, empty for
    /// a binary file, memoized in the record.
    pub fn source(&mut self, i: usize) -> (r: Vec<u8>)
        requires
            old(self).wf(),
            i < old(self).store.entries@.len(),
        ensures
            final(self).wf(),
            r@ == source_view(old(self).store.entries@[i as int].content),
            final(self).root@ == old(self).root@,
            final(self).fonts@ == old(self).fonts@,
            final(self).main == old(self).main,
            final(self).packages == old(self).packages,
            final(self).now == old(self).now,
            final(self).store.idents@ == old(self).store.idents@,
            final(self).store.entries@.len() == old(self).store.entries@.len(),
            forall|j: int|
                0 <= j < old(self).store.entries@.len() ==> final(self).store.entries@[j].content
                    == old(self).store.entries@[j].content,
    {
        self.store.source_at(i)
    }

    /// The byte view of a cached slot, memoized in the record.
    pub fn file(&mut self, i: usize) -> (r: Vec<u8>)
        requires
            old(self).wf(),
            i < old(self).store.entries@.len(),
        ensures
            final(self).wf(),
            r@ == bytes_view(old(self).store.entries@[i as int].content),
            final(self).root@ == old(self).root@,
            final(self).fonts@ == old(self).fonts@,
            final(self).main == old(self).main,
            final(self).packages == old(self).packages,
            final(self).now == old(self).now,
            final(self).store.idents@ == old(self).store.idents@,
            final(self).store.entries@.len() == old(self).store.entries@.len(),
            forall|j: int|
                0 <= j < old(self).store.entries@.len() ==> final(self).store.entries@[j].content
                    == old(self).store.entries@[j].content,
    {
        self.store.bytes_at(i)
    }

    /// Parses every face out of a raw font buffer and appends them to the
    /// catalog; a buffer yielding no face is a no-op, not an error. Existing
    /// positions are stable: no face ever moves or disappears.
    pub fn add_font(&mut self, data: Vec<u8>) -> (added: usize)
        requires
            old(self).wf(),
        ensures
            final(self).wf(),
            final(self).root@ == old(self).root@,
            final(self).main == old(self).main,
            final(self).store == old(self).store,
            final(self).packages == old(self).packages,
            final(self).now == old(self).now,
            added == crate::fonts::face_count(data@),
            final(self).fonts@.len() == old(self).fonts@.len() + added,
            forall|j: int|
                0 <= j < old(self).fonts@.len() ==> final(self).fonts@[j] == old(self).fonts@[j],
    {
        let faces = crate::fonts::parse_fonts(data);
        let m = faces.len();
        let ghost prev = self.fonts@;
        let mut j: usize = 0;
        while j < m
            invariant
                m == faces@.len(),
                0 <= j <= m,
                old(self).wf(),
                self.root == old(self).root,
                self.main == old(self).main,
                self.store == old(self).store,
                self.packages == old(self).packages,
                self.now == old(self).now,
                self.fonts@.len() == prev.len() + j,
                prev == old(self).fonts@,
                forall|i: int| 0 <= i < prev.len() ==> self.fonts@[i] == prev[i],
            decreases m - j,
        {
            self.fonts.push(crate::fonts::clone_font(&faces[j]));
            j += 1;
        }
        m
    }

    /// Discards every runtime-added face: the catalog becomes exactly the
    /// given faces, which the caller seeds freshly from the embedded bundle
    /// alone (`seed_fonts` over `embedded_font_data`); everything else is
    /// untouched.
    pub fn reset_fonts(&mut self, fonts: Vec<typst::text::Font>)
        requires
            old(self).wf(),
        ensures
            final(self).wf(),
            final(self).fonts@ == fonts@,
            final(self).root@ == old(self).root@,
            final(self).main == old(self).main,
            final(self).store == old(self).store,
            final(self).packages == old(self).packages,
            final(self).now == old(self).now,
    {
        self.fonts = fonts;
    }

    /// The face at a stable position: exactly the one the catalog holds
    /// there, and nothing for a position past the end.
    pub fn font(&self, index: usize) -> (r: Option<typst::text::Font>)
        ensures
            match r {
                Some(f) => index < self.fonts@.len() && f == self.fonts@[index as int],
                None => index >= self.fonts@.len(),
            },
    {
        if index < self.fonts.len() {
            Some(crate::fonts::clone_font(&self.fonts[index]))
        } else {
            None
        }
    }

    /// The instant a date query resolves against, memoized over one
    /// compilation; the valid seconds value it selects for an offset, or
    /// nothing when the shifted instant leaves the supported range.
    pub open spec fn spec_today_secs(ts: (i64, i32), offset: Option<i64>) -> Option<int> {
        let secs: int = match offset {
            None => ts.0 + ts.1,
            Some(o) => ts.0 + o * 3600,
        };
        if -SECS_BOUND <= secs <= SECS_BOUND {
            Some(secs)
        } else {
            None
        }
    }

    /// How a date result must relate to the memoized instant and the offset.
    pub open spec fn today_rel(ts: (i64, i32), offset: Option<i64>, r: Option<CivilDate>) -> bool {
        match Self::spec_today_secs(ts, offset) {
            Some(secs) => match r {
                Some(c) => spec_civil(spec_day_index(secs)) == Some(
                    (c.year as int, c.month as int, c.day as int),
                ),
                None => spec_civil(spec_day_index(secs)) is None,
            },
            None => r is None,
        }
    }

    /// Today's date. The wall clock is read once per compilation and the
    /// instant reused for every later query, so one compilation sees one
    /// consistent notion of now. Without an offset the local date of that
    /// instant is returned; with an offset, the date of the instant shifted
    /// by whole hours from universal time. A date outside the representable
    /// range yields nothing.
    pub fn today(&mut self, offset: Option<i64>) -> (r: Option<CivilDate>)
        requires
            old(self).wf(),
        ensures
            final(self).wf(),
            final(self).root@ == old(self).root@,
            final(self).fonts@ == old(self).fonts@,
            final(self).main == old(self).main,
            final(self).packages == old(self).packages,
            final(self).store == old(self).store,
            final(self).now is Some,
            old(self).now is Some ==> final(self).now == old(self).now,
            Self::today_rel(final(self).now.unwrap(), offset, r),
    {
        let ts: (i64, i32) = match self.now {
            Some(t) => t,
            None => {
                let t = read_wall_clock();
                self.now = Some(t);
                t
            },
        };
        let secs_opt: Option<i64> = match offset {
            None => Some(ts.0 + ts.1 as i64),
            Some(o) => {
                if -5_000_000_000 <= o && o <= 5_000_000_000 {
                    let shifted = ts.0 + o * 3600;
                    if -SECS_BOUND <= shifted && shifted <= SECS_BOUND {
                        Some(shifted)
                    } else {
                        None
                    }
                } else {
                    proof {
                        assert(Self::spec_today_secs(ts, offset) is None);
                    }
                    None
                }
            },
        };
        match secs_opt {
            None => None,
            Some(secs) => {
                let day = crate::dates::div_floor_secs(secs);
                civil_from_day(day)
            },
        }
    }
}

} // verus!
