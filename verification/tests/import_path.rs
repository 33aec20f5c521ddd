use studypilot::import_path::{
    classify_import, import_candidate, is_supported_file, is_supported_name, ImportPathError, PathKind,
    PathProbe,
};

#[test]
fn blank_input_is_not_found() {
    assert!(matches!(import_candidate("  ", None), Err(ImportPathError::NotFound(_))));
}

#[test]
fn quotes_and_blanks_are_stripped() {
    assert_eq!(import_candidate("  \"/tmp/a b/notes\"  ", None).unwrap(), "/tmp/a b/notes");
    assert_eq!(import_candidate("'docs/x.md'", None).unwrap(), "'docs/x.md'", "only double quotes are stripped");
}

#[test]
fn tilde_expands_with_home() {
    let home = Some("/home/u".to_string());
    assert_eq!(import_candidate("~/materials", home.clone()).unwrap(), "/home/u/materials");
    assert_eq!(import_candidate("~", home).unwrap(), "/home/u");
    assert_eq!(import_candidate("~/x", None).unwrap(), "~/x");
}

#[test]
fn supported_extensions() {
    assert!(is_supported_file("a/b/Notes.MD"));
    assert!(is_supported_file("x.pdf"));
    assert!(is_supported_file("x.pptx"));
    assert!(is_supported_file("x.txt"));
    assert!(!is_supported_file("x.docx"));
    assert!(!is_supported_file("README"));
}

#[test]
fn classify_each_probe() {
    assert!(matches!(classify_import("p", PathProbe::Missing), Err(ImportPathError::NotFound(p)) if p == "p"));
    let t = classify_import(
        "p",
        PathProbe::Found { canonical: "/abs/n.md".into(), kind: PathKind::File },
    )
    .unwrap();
    assert_eq!(t.path, "/abs/n.md");
    assert!(t.is_file);
    assert!(matches!(
        classify_import("p", PathProbe::Found { canonical: "/abs/n.docx".into(), kind: PathKind::File }),
        Err(ImportPathError::UnsupportedType(_))
    ));
    let d = classify_import(
        "p",
        PathProbe::Found { canonical: "/abs/dir".into(), kind: PathKind::Dir { has_supported: true } },
    )
    .unwrap();
    assert!(!d.is_file);
    assert!(matches!(
        classify_import("p", PathProbe::Found { canonical: "/abs/dir".into(), kind: PathKind::Dir { has_supported: false } }),
        Err(ImportPathError::EmptyDir(_))
    ));
    assert!(matches!(
        classify_import("p", PathProbe::Found { canonical: "/dev/x".into(), kind: PathKind::Other }),
        Err(ImportPathError::NotFileOrDir(_))
    ));
    assert!(matches!(
        classify_import("p", PathProbe::Unreadable("denied".into())),
        Err(ImportPathError::Inaccessible(p, e)) if p == "p" && e == "denied"
    ));
}

#[test]
fn error_messages() {
    assert_eq!(
        ImportPathError::NotFound("x".into()).message(),
        "File not found: x\nCheck the path and try again."
    );
    assert_eq!(
        ImportPathError::EmptyDir("d".into()).message(),
        "No supported files found in: d\nSupported: md / txt / pdf / pptx"
    );
    assert_eq!(
        ImportPathError::Inaccessible("p".into(), "denied".into()).message(),
        "Could not access: p\nReason: denied"
    );
}

#[test]
fn supported_names_by_extension() {
    assert!(is_supported_name("notes.MD"));
    assert!(is_supported_name("a.b.pptx"));
    assert!(!is_supported_name("archive.zip"));
    assert!(!is_supported_name(".md"));
    assert!(!is_supported_name("README"));
    assert!(is_supported_file("/tmp/x/Slides.PDF"));
    assert!(!is_supported_file("/"));
}
