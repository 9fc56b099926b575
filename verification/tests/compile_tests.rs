use std::sync::Mutex;

use typst::diag::{EcoString, FileError, FileResult, PackageError};
use typst::foundations::{Bytes, Datetime, Duration};
use typst::syntax::package::PackageSpec;
use typst::syntax::{FileId, RootedPath, Source, VirtualPath, VirtualRoot};
use typst::text::{Font, FontBook};
use typst::utils::LazyHash;
use typst::{Library, LibraryExt, World};
use typst_layout::PagedDocument;

use typst_world::errors::{HostError, WorldFailure};
use typst_world::fonts::{embedded_font_data, seed_fonts};
use typst_world::ident::{FileIdent, PackageCoord};
use typst_world::world::{Step, SystemWorld};

/// A compiler environment over the verified world, with a host double that
/// reports every file as missing.
struct TestWorld {
    library: LazyHash<Library>,
    book: LazyHash<FontBook>,
    main: FileId,
    world: Mutex<SystemWorld>,
}

fn ident_of(id: FileId) -> FileIdent {
    let package = match id.get().root() {
        VirtualRoot::Project => None,
        VirtualRoot::Package(spec) => Some(PackageCoord {
            namespace: spec.namespace.as_str().as_bytes().to_vec(),
            name: spec.name.as_str().as_bytes().to_vec(),
            major: spec.version.major,
            minor: spec.version.minor,
            patch: spec.version.patch,
        }),
    };
    FileIdent { package, vpath: id.vpath().get_with_slash().as_bytes().to_vec() }
}

fn to_file_error(f: WorldFailure, spec: Option<&PackageSpec>) -> FileError {
    match f {
        WorldFailure::NotFound(key) => FileError::NotFound(
            String::from_utf8_lossy(&key).into_owned().into(),
        ),
        WorldFailure::AccessDenied => FileError::AccessDenied,
        WorldFailure::IsDirectory => FileError::IsDirectory,
        WorldFailure::PackageNotFound => match spec {
            Some(s) => FileError::Package(PackageError::NotFound(s.clone())),
            None => FileError::Other(None),
        },
        WorldFailure::Other(m) => FileError::Other(
            m.map(|b| EcoString::from(String::from_utf8_lossy(&b).into_owned())),
        ),
    }
}

impl TestWorld {
    fn new(text: &str, path: &str) -> TestWorld {
        let mut world = SystemWorld::new(b"/proj".to_vec(), seed_fonts(&embedded_font_data()));
        let vpath = VirtualPath::new(path).expect("a test path is well-formed");
        let id = FileId::new(RootedPath::new(VirtualRoot::Project, vpath));
        world.begin_compile(
            text.as_bytes().to_vec(),
            id.vpath().get_with_slash().as_bytes().to_vec(),
        );
        let mut fonts: Vec<Font> = Vec::new();
        let mut i = 0usize;
        while let Some(f) = world.font(i) {
            fonts.push(f);
            i += 1;
        }
        TestWorld {
            library: LazyHash::new(Library::default()),
            book: LazyHash::new(FontBook::from_fonts(fonts.iter())),
            main: id,
            world: Mutex::new(world),
        }
    }

    fn slot_of(&self, id: FileId) -> FileResult<usize> {
        let ident = ident_of(id);
        let mut world = self.world.lock().unwrap();
        loop {
            match world.resolve_step(&ident) {
                Step::Ready(idx) => return Ok(idx),
                Step::NeedPackage(_) => {
                    // The host double has no packages.
                    let coord = ident.package.as_ref().expect("a package request");
                    world.supply_package(coord, Err(HostError::Code(2)));
                }
                Step::NeedFile { .. } => {
                    // The host double reports every file as missing.
                    match world.supply_file(&ident, Err(HostError::Code(2))) {
                        Ok(idx) => return Ok(idx),
                        Err(f) => {
                            let spec = match id.get().root() {
                                VirtualRoot::Project => None,
                                VirtualRoot::Package(s) => Some(s),
                            };
                            return Err(to_file_error(f, spec));
                        }
                    }
                }
                Step::Failed(f) => {
                    let spec = match id.get().root() {
                        VirtualRoot::Project => None,
                        VirtualRoot::Package(s) => Some(s),
                    };
                    return Err(to_file_error(f, spec));
                }
            }
        }
    }
}

impl World for TestWorld {
    fn library(&self) -> &LazyHash<Library> {
        &self.library
    }

    fn book(&self) -> &LazyHash<FontBook> {
        &self.book
    }

    fn main(&self) -> FileId {
        self.main
    }

    fn source(&self, id: FileId) -> FileResult<Source> {
        let idx = self.slot_of(id)?;
        let text = self.world.lock().unwrap().source(idx);
        Ok(Source::new(
            id,
            String::from_utf8(text).map_err(|_| FileError::InvalidUtf8)?,
        ))
    }

    fn file(&self, id: FileId) -> FileResult<Bytes> {
        let idx = self.slot_of(id)?;
        Ok(Bytes::new(self.world.lock().unwrap().file(idx)))
    }

    fn font(&self, index: usize) -> Option<Font> {
        self.world.lock().unwrap().font(index)
    }

    fn today(&self, offset: Option<Duration>) -> Option<Datetime> {
        let hours = offset.map(|d| {
            let [weeks, days, hours, _minutes, _seconds] = d.decompose();
            weeks * 168 + days * 24 + hours
        });
        let date = self.world.lock().unwrap().today(hours)?;
        Datetime::from_ymd(
            i32::try_from(date.year).ok()?,
            u8::try_from(date.month).ok()?,
            u8::try_from(date.day).ok()?,
        )
    }
}

#[test]
fn compile_then_vector_has_a_page() {
    let w = TestWorld::new("#set page(fill: none)", "/main.typ");
    let document = typst::compile::<PagedDocument>(&w)
        .output
        .expect("an empty page compiles");
    assert_eq!(document.pages().len(), 1);
    let svg = typst_svg::svg(&document.pages()[0], &typst_svg::SvgOptions::default());
    assert!(svg.contains("<svg"), "the vector output must hold a page marker");
}

#[test]
fn missing_import_fails_as_not_found() {
    let w = TestWorld::new("#import \"/gone.typ\": x", "/main.typ");
    let result = typst::compile::<PagedDocument>(&w).output;
    let errors = result.err().expect("a missing import must fail the compilation");
    let joined: String = errors.iter().map(|e| e.message.as_str()).collect();
    assert!(joined.contains("not found"), "diagnostics were: {joined}");
}
