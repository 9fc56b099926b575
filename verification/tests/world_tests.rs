use typst_world::errors::HostError;
use typst_world::fonts::embedded_font_data;
use typst_world::fonts::seed_fonts;
use typst_world::errors::WorldFailure;
use typst_world::ident::FileIdent;
use typst_world::ident::PackageCoord;
use typst_world::world::Step;
use typst_world::world::SystemWorld;

fn ident(path: &str) -> FileIdent {
    FileIdent { package: None, vpath: path.as_bytes().to_vec() }
}

fn pkg_ident(ns: &str, name: &str, v: (u32, u32, u32), path: &str) -> FileIdent {
    FileIdent {
        package: Some(PackageCoord {
            namespace: ns.as_bytes().to_vec(),
            name: name.as_bytes().to_vec(),
            major: v.0,
            minor: v.1,
            patch: v.2,
        }),
        vpath: path.as_bytes().to_vec(),
    }
}

fn world() -> SystemWorld {
    SystemWorld::new(b"/proj".to_vec(), seed_fonts(&embedded_font_data()))
}

#[test]
fn text_file_uses_text_key() {
    let w = world();
    match w.resolve_step(&ident("/sub/note.typ")) {
        Step::NeedFile { key, binary } => {
            assert_eq!(key, b"/proj/sub/note.typ".to_vec());
            assert!(!binary);
        }
        _ => panic!("expected a file request"),
    }
}

#[test]
fn png_uses_binary_key() {
    let w = world();
    match w.resolve_step(&ident("/img/pic.png")) {
        Step::NeedFile { key, binary } => {
            assert_eq!(key, b"/proj/img/pic.png:binary".to_vec());
            assert!(binary);
        }
        _ => panic!("expected a file request"),
    }
}

#[test]
fn upper_case_extension_is_binary() {
    let w = world();
    match w.resolve_step(&ident("/img/PIC.PNG")) {
        Step::NeedFile { key, binary } => {
            assert_eq!(key, b"/proj/img/PIC.PNG:binary".to_vec());
            assert!(binary);
        }
        _ => panic!("expected a file request"),
    }
}

#[test]
fn extensionless_is_text() {
    let w = world();
    match w.resolve_step(&ident("/README")) {
        Step::NeedFile { key, binary } => {
            assert_eq!(key, b"/proj/README".to_vec());
            assert!(!binary);
        }
        _ => panic!("expected a file request"),
    }
}

#[test]
fn escape_is_access_denied() {
    let w = world();
    match w.resolve_step(&ident("/../secret.typ")) {
        Step::Failed(WorldFailure::AccessDenied) => {}
        _ => panic!("expected an access-denied failure"),
    }
}

#[test]
fn repeated_reads_are_identical_and_need_no_host() {
    let mut w = world();
    let id = ident("/data/info.txt");
    match w.resolve_step(&id) {
        Step::NeedFile { binary, .. } => assert!(!binary),
        _ => panic!("expected a file request"),
    }
    let idx = w.supply_file(&id, Ok(b"payload".to_vec())).expect("fetch should cache");
    let s1 = w.source(idx);
    let s2 = w.source(idx);
    let b1 = w.file(idx);
    let b2 = w.file(idx);
    assert_eq!(s1, b"payload".to_vec());
    assert_eq!(s1, s2);
    assert_eq!(b1, b"payload".to_vec());
    assert_eq!(b1, b2);
    match w.resolve_step(&id) {
        Step::Ready(i) => assert_eq!(i, idx),
        _ => panic!("a cached identity must not reach the host again"),
    }
}

#[test]
fn binary_source_view_is_empty() {
    let mut w = world();
    let id = ident("/img/pic.png");
    let idx = w.supply_file(&id, Ok(vec![1, 2, 3, 4])).expect("fetch should cache");
    assert_eq!(w.source(idx), Vec::<u8>::new());
    assert_eq!(w.file(idx), vec![1, 2, 3, 4]);
}

#[test]
fn distinct_vpaths_keep_distinct_slots() {
    let mut w = world();
    let a = ident("/a//b.typ");
    let b = ident("/a/b.typ");
    // Both resolve to the same underlying path.
    let (ka, kb) = match (w.resolve_step(&a), w.resolve_step(&b)) {
        (Step::NeedFile { key: ka, .. }, Step::NeedFile { key: kb, .. }) => (ka, kb),
        _ => panic!("expected file requests"),
    };
    assert_eq!(ka, kb);
    let ia = w.supply_file(&a, Ok(b"first".to_vec())).unwrap();
    let ib = w.supply_file(&b, Ok(b"second".to_vec())).unwrap();
    assert_ne!(ia, ib);
    assert_eq!(w.source(ia), b"first".to_vec());
    assert_eq!(w.source(ib), b"second".to_vec());
}

#[test]
fn package_request_key_format() {
    let w = world();
    let id = pkg_ident("preview", "example", (1, 2, 3), "/lib.typ");
    match w.resolve_step(&id) {
        Step::NeedPackage(key) => assert_eq!(key, b"@preview/example/1.2.3".to_vec()),
        _ => panic!("expected a package request"),
    }
}

#[test]
fn package_request_key_multi_digit_version() {
    let w = world();
    let id = pkg_ident("preview", "cetz", (2, 10, 0), "/lib.typ");
    match w.resolve_step(&id) {
        Step::NeedPackage(key) => assert_eq!(key, b"@preview/cetz/2.10.0".to_vec()),
        _ => panic!("expected a package request"),
    }
}

#[test]
fn package_failure_is_memoized() {
    let mut w = world();
    let id = pkg_ident("preview", "missing", (0, 1, 0), "/lib.typ");
    match w.resolve_step(&id) {
        Step::NeedPackage(_) => {}
        _ => panic!("expected a package request"),
    }
    w.supply_package(id.package.as_ref().unwrap(), Err(HostError::Code(2)));
    for _ in 0..3 {
        match w.resolve_step(&id) {
            Step::Failed(WorldFailure::PackageNotFound) => {}
            _ => panic!("a failed package lookup must fail identically, with no host request"),
        }
    }
}

#[test]
fn package_success_resolves_under_package_root() {
    let mut w = world();
    let id = pkg_ident("preview", "example", (1, 0, 0), "/lib.typ");
    match w.resolve_step(&id) {
        Step::NeedPackage(_) => {}
        _ => panic!("expected a package request"),
    }
    w.supply_package(id.package.as_ref().unwrap(), Ok(b"/pkgs/example-1.0.0".to_vec()));
    match w.resolve_step(&id) {
        Step::NeedFile { key, binary } => {
            assert_eq!(key, b"/pkgs/example-1.0.0/lib.typ".to_vec());
            assert!(!binary);
        }
        _ => panic!("expected a file request"),
    }
}

#[test]
fn host_error_codes_map_to_taxonomy() {
    let mut w = world();
    match w.supply_file(&ident("/a.typ"), Err(HostError::Code(2))) {
        Err(WorldFailure::NotFound(p)) => assert_eq!(p, b"/proj/a.typ".to_vec()),
        _ => panic!("code 2 must map to not-found"),
    }
    match w.supply_file(&ident("/b.typ"), Err(HostError::Code(3))) {
        Err(WorldFailure::AccessDenied) => {}
        _ => panic!("code 3 must map to access-denied"),
    }
    match w.supply_file(&ident("/c.typ"), Err(HostError::Code(4))) {
        Err(WorldFailure::IsDirectory) => {}
        _ => panic!("code 4 must map to is-a-directory"),
    }
    match w.supply_file(&ident("/d.typ"), Err(HostError::Code(7))) {
        Err(WorldFailure::Other(Some(m))) => assert_eq!(m, b"see logs for details".to_vec()),
        _ => panic!("other codes must map to the hinted opaque failure"),
    }
    match w.supply_file(&ident("/e.typ"), Err(HostError::Message(Some(b"boom".to_vec())))) {
        Err(WorldFailure::Other(Some(m))) => assert_eq!(m, b"boom".to_vec()),
        _ => panic!("a message error must carry its message"),
    }
}

#[test]
fn missing_main_fails_before_any_layout() {
    let mut w = world();
    w.begin_compile(b"#set page(fill: none)".to_vec(), b"/main.typ".to_vec());
    let other = ident("/missing.typ");
    match w.resolve_step(&other) {
        Step::NeedFile { .. } => {}
        _ => panic!("expected a file request"),
    }
    match w.supply_file(&other, Err(HostError::Code(2))) {
        Err(WorldFailure::NotFound(_)) => {}
        _ => panic!("a file the host reports missing must fail as not-found"),
    }
}

#[test]
fn begin_compile_caches_main_and_resets_packages() {
    let mut w = world();
    let pkg = pkg_ident("preview", "gone", (0, 0, 1), "/lib.typ");
    match w.resolve_step(&pkg) {
        Step::NeedPackage(_) => {}
        _ => panic!("expected a package request"),
    }
    w.supply_package(pkg.package.as_ref().unwrap(), Err(HostError::Code(2)));
    w.begin_compile(b"first".to_vec(), b"/main.typ".to_vec());
    // The package cache is reset at the start of each compilation.
    match w.resolve_step(&pkg) {
        Step::NeedPackage(_) => {}
        _ => panic!("the package cache must be reset by a new compilation"),
    }
    // The main document is served from the cache without host work.
    let main = ident("/main.typ");
    let idx = match w.resolve_step(&main) {
        Step::Ready(i) => i,
        _ => panic!("the main document must be cached"),
    };
    assert_eq!(w.source(idx), b"first".to_vec());
    // A second compilation replaces the main record in place.
    w.begin_compile(b"second".to_vec(), b"/main.typ".to_vec());
    let idx2 = match w.resolve_step(&main) {
        Step::Ready(i) => i,
        _ => panic!("the main document must be cached"),
    };
    assert_eq!(w.source(idx2), b"second".to_vec());
}

#[test]
fn fonts_seeded_and_append_only() {
    let mut w = world();
    let seeded = {
        let mut n = 0usize;
        while w.font(n).is_some() {
            n += 1;
        }
        n
    };
    assert!(seeded > 0, "the embedded bundle must seed at least one face");
    // A buffer holding no face is a no-op, not an error.
    let added = w.add_font(b"not a font".to_vec());
    assert_eq!(added, 0);
    assert!(w.font(seeded).is_none());
    w.reset_fonts(seed_fonts(&embedded_font_data()));
    assert!(w.font(0).is_some());
}

#[test]
fn add_font_appends_every_parsed_face() {
    let mut w = world();
    let seeded = {
        let mut n = 0usize;
        while w.font(n).is_some() {
            n += 1;
        }
        n
    };
    let buffer: Vec<u8> = typst_assets::fonts()
        .next()
        .expect("the embedded bundle holds a font file")
        .to_vec();
    let added = w.add_font(buffer);
    assert!(added > 0, "a real font buffer must append its faces");
    assert!(w.font(seeded + added - 1).is_some());
    assert!(w.font(seeded + added).is_none());
}
