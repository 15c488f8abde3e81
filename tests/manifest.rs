use cargo_manifest::descriptor::{TomlManifest, TomlProject, TomlTarget};
use cargo_manifest::document::{manifest_from_tree, parse, to_manifest};
use cargo_manifest::error::ManifestError;
use cargo_manifest::manifest::Manifest;
use cargo_manifest::source::{to_location, Location, SourceId, SourceKind, CENTRAL_REGISTRY};
use cargo_manifest::target::{normalize, LibKind, Target, TargetKind};
use cargo_manifest::text::{decimal, line_col, syntax_message, SyntaxIssue};
use cargo_manifest::tree::{Kind, Tree};

fn ambient() -> SourceId {
    SourceId::new(SourceKind::Path, Location::Local("/work/foo".to_string()))
}

fn interpret(text: &str) -> Result<(Manifest, Vec<String>), ManifestError> {
    to_manifest(text.as_bytes(), &ambient())
}

fn entry(name: &str) -> TomlTarget {
    TomlTarget { name: name.to_string(), crate_type: None, path: None, test: None }
}

fn paths_of(ts: &[Target]) -> Vec<String> {
    ts.iter().map(|t| t.path.clone()).collect()
}

const PACKAGE: &str = "[package]\nname = \"foo\"\nversion = \"0.1.0\"\n";

#[test]
fn minimal_descriptor_has_no_dependencies_or_targets() {
    let (m, paths) = interpret(PACKAGE).unwrap();
    assert!(m.summary.dependencies.is_empty());
    assert!(m.targets.is_empty());
    assert!(paths.is_empty());
    assert!(m.sources.is_empty());
    assert_eq!(m.summary.package_id.name, "foo");
    assert_eq!(m.summary.package_id.version, "0.1.0");
    assert_eq!(m.summary.package_id.location, ambient().location);
    assert_eq!(m.target_dir, "target");
    assert_eq!(m.build, None);
}

#[test]
fn project_section_is_accepted_and_preferred() {
    let text = "[project]\nname = \"old\"\nversion = \"1.0.0\"\nbuild = \"build.sh\"\n[package]\nname = \"new\"\nversion = \"2.0.0\"\n";
    let (m, _) = interpret(text).unwrap();
    assert_eq!(m.summary.package_id.name, "old");
    assert_eq!(m.build, Some("build.sh".to_string()));
}

#[test]
fn bare_string_dependency_uses_central_registry() {
    let text = format!("{}[dependencies]\nbar = \"1.0\"\n", PACKAGE);
    let (m, paths) = interpret(&text).unwrap();
    let d = &m.summary.dependencies[0];
    assert_eq!(d.name, "bar");
    assert_eq!(d.req, Some("1.0".to_string()));
    assert_eq!(d.source_id, SourceId::for_central());
    assert_eq!(d.source_id.location, Location::Remote(CENTRAL_REGISTRY.to_string()));
    assert!(paths.is_empty());
}

#[test]
fn git_dependency_defaults_to_master() {
    let text = format!("{}[dependencies.bar]\ngit = \"https://x/y.git\"\n", PACKAGE);
    let (m, _) = interpret(&text).unwrap();
    let d = &m.summary.dependencies[0];
    assert_eq!(d.source_id.kind, SourceKind::Git("master".to_string()));
    assert_eq!(d.source_id.location, Location::Remote("https://x/y.git".to_string()));
    assert_eq!(d.req, None);
    assert_eq!(m.sources, vec![d.source_id.clone()]);
}

#[test]
fn git_branch_wins_over_tag_and_rev() {
    let text = format!(
        "{}[dependencies.bar]\ngit = \"https://x/y.git\"\nbranch = \"dev\"\ntag = \"v1\"\nrev = \"abc\"\n",
        PACKAGE
    );
    let (m, _) = interpret(&text).unwrap();
    assert_eq!(m.summary.dependencies[0].source_id.kind, SourceKind::Git("dev".to_string()));
}

#[test]
fn git_tag_wins_over_rev() {
    let text = format!("{}[dependencies.bar]\ngit = \"https://x/y.git\"\ntag = \"v1\"\nrev = \"abc\"\n", PACKAGE);
    let (m, _) = interpret(&text).unwrap();
    assert_eq!(m.summary.dependencies[0].source_id.kind, SourceKind::Git("v1".to_string()));
    let text = format!("{}[dependencies.bar]\ngit = \"https://x/y.git\"\nrev = \"abc\"\n", PACKAGE);
    let (m, _) = interpret(&text).unwrap();
    assert_eq!(m.summary.dependencies[0].source_id.kind, SourceKind::Git("abc".to_string()));
}

#[test]
fn git_file_location_is_local() {
    let text = format!("{}[dependencies.bar]\ngit = \"file:/repos/bar\"\n", PACKAGE);
    let (m, _) = interpret(&text).unwrap();
    assert_eq!(m.summary.dependencies[0].source_id.location, Location::Local("/repos/bar".to_string()));
}

#[test]
fn url_location_is_normalized() {
    assert_eq!(
        to_location("HTTPS://Example.COM").unwrap(),
        Location::Remote("https://example.com/".to_string())
    );
}

#[test]
fn path_dependency_inherits_ambient_source() {
    let text = format!("{}[dependencies.bar]\npath = \"../foo\"\nversion = \"0.2\"\n", PACKAGE);
    let (m, paths) = interpret(&text).unwrap();
    assert_eq!(paths, vec!["../foo".to_string()]);
    let d = &m.summary.dependencies[0];
    assert_eq!(d.source_id, ambient());
    assert_eq!(d.req, Some("0.2".to_string()));
    assert!(m.sources.is_empty());
}

#[test]
fn lib_and_bins_use_bin_directory() {
    let text = format!(
        "{}[[lib]]\nname = \"core\"\n[[bin]]\nname = \"a\"\n[[bin]]\nname = \"b\"\n",
        PACKAGE
    );
    let (m, _) = interpret(&text).unwrap();
    assert_eq!(paths_of(&m.targets), vec!["src/core.rs", "src/bin/a.rs", "src/bin/b.rs"]);
    assert_eq!(m.targets[0].kind, TargetKind::Lib(vec![LibKind::Lib]));
    assert_eq!(m.targets[1].kind, TargetKind::Bin);
    assert_eq!(m.targets[2].name, "b");
}

#[test]
fn bin_only_uses_src_directory() {
    let bins = vec![entry("tool")];
    let ts = normalize(None, Some(&bins)).unwrap();
    assert_eq!(paths_of(&ts), vec!["src/tool.rs"]);
}

#[test]
fn lib_only_and_explicit_paths() {
    let mut lib = entry("core");
    lib.path = Some("lib/core.rs".to_string());
    lib.crate_type = Some(vec!["rlib".to_string(), "dylib".to_string()]);
    let libs = vec![lib, entry("ignored")];
    let ts = normalize(Some(&libs), None).unwrap();
    assert_eq!(ts.len(), 1);
    assert_eq!(ts[0].path, "lib/core.rs");
    assert_eq!(ts[0].kind, TargetKind::Lib(vec![LibKind::Rlib, LibKind::Dylib]));
    assert!(normalize(None, None).unwrap().is_empty());
}

#[test]
fn test_flag_controls_test_profile() {
    let mut off = entry("x");
    off.test = Some(false);
    let mut on = entry("y");
    on.test = Some(true);
    let bins = vec![off, on, entry("z")];
    let ts = normalize(None, Some(&bins)).unwrap();
    assert_eq!(ts[0].profiles.len(), 1);
    assert_eq!(ts[0].profiles[0].env, "compile");
    assert!(!ts[0].profiles[0].test);
    for t in &ts[1..] {
        assert_eq!(t.profiles.len(), 2);
        assert_eq!(t.profiles[1].env, "test");
        assert!(t.profiles[1].test);
    }
}

#[test]
fn unknown_crate_type_fails() {
    let text = format!("{}[[lib]]\nname = \"core\"\ncrate_type = [\"lib\", \"weird\"]\n", PACKAGE);
    let e = interpret(&text).unwrap_err();
    assert_eq!(e, ManifestError::CrateType("weird".to_string()));
    assert_eq!(e.message(), "Cargo.toml is not a valid manifest\n\ncould not parse `weird` as a crate type");
}

#[test]
fn missing_project_section_fails() {
    let e = interpret("[dependencies]\nbar = \"1.0\"\n").unwrap_err();
    assert_eq!(e, ManifestError::MissingProjectSection);
    assert_eq!(e.message(), "Cargo.toml is not a valid manifest\n\nNo `package` or `project` section found.");
    let empty = TomlManifest { package: None, project: None, lib: None, bin: None, dependencies: None };
    assert_eq!(empty.to_manifest(&ambient()).unwrap_err(), ManifestError::MissingProjectSection);
}

#[test]
fn syntax_error_locates_offset() {
    let e = interpret("[package]\nname = \"foo\"\nversion = = 1\n").unwrap_err();
    match e {
        ManifestError::Syntax(msg) => {
            assert!(msg.starts_with("could not parse input TOML\nCargo.toml:3:"), "{}", msg);
        }
        other => panic!("unexpected {:?}", other),
    }
}

#[test]
fn syntax_message_formats_ranges() {
    let text = b"ab\ncd\nef";
    let issues = vec![
        SyntaxIssue { span: Some((4, 4)), desc: "bad".to_string() },
        SyntaxIssue { span: Some((1, 7)), desc: "worse".to_string() },
        SyntaxIssue { span: None, desc: "lost".to_string() },
    ];
    assert_eq!(
        syntax_message(text, "f.toml", &issues),
        "could not parse input TOML\nf.toml:2:2 bad\nf.toml:1:2-3:2 worse\nf.toml lost\n"
    );
}

#[test]
fn line_col_is_one_based() {
    assert_eq!(line_col(b"ab\ncd", 0), (1, 1));
    assert_eq!(line_col(b"ab\ncd", 4), (2, 2));
    assert_eq!(line_col(b"ab\ncd", 3), (2, 1));
    assert_eq!(line_col(b"ab\ncd", 99), (2, 3));
}

#[test]
fn decimal_writes_digits() {
    assert_eq!(decimal(0), "0");
    assert_eq!(decimal(1234), "1234");
}

#[test]
fn not_utf8_fails() {
    let e = to_manifest(&[0xff, 0xfe], &ambient()).unwrap_err();
    assert_eq!(e, ManifestError::NotUtf8);
    assert_eq!(e.message(), "Cargo.toml is not valid UTF-8");
}

#[test]
fn wrong_kind_is_a_decode_error() {
    let e = interpret("[package]\nname = 1\nversion = \"0.1.0\"\n").unwrap_err();
    assert_eq!(
        e,
        ManifestError::Decode(
            "expected a value of type `string`, but found a value of type `integer` for the key `package.name`".to_string()
        )
    );
    let e = interpret("[package]\nname = \"x\"\n").unwrap_err();
    assert_eq!(e, ManifestError::Decode("expected a value of type `string` for the key `package.version`".to_string()));
    let e = interpret(&format!("{}[dependencies]\nbar = 3\n", PACKAGE)).unwrap_err();
    assert_eq!(
        e,
        ManifestError::Decode(
            "expected a value of type `table`, but found a value of type `integer` for the key `dependencies.bar`".to_string()
        )
    );
}

#[test]
fn decode_from_built_tree() {
    let project = Tree::Table(vec![
        ("name".to_string(), Tree::Str("foo".to_string())),
        ("version".to_string(), Tree::Str("1.2.3".to_string())),
        ("authors".to_string(), Tree::Array(vec![Tree::Scalar(Kind::Integer)])),
    ]);
    let root = vec![("package".to_string(), project)];
    let e = manifest_from_tree(&root, &ambient()).unwrap_err();
    assert_eq!(
        e,
        ManifestError::Decode(
            "expected a value of type `string`, but found a value of type `integer` for the key `package.authors`".to_string()
        )
    );
    assert!(e.message().starts_with("Cargo.toml is not a valid manifest\n\nexpected"));
}

#[test]
fn bad_dependency_requirement_fails() {
    let e = interpret(&format!("{}[dependencies]\nbar = \"not a version\"\n", PACKAGE)).unwrap_err();
    assert_eq!(e, ManifestError::DependencyParse("bar".to_string()));
    assert_eq!(e.message(), "Cargo.toml is not a valid manifest\n\ninvalid dependency `bar`");
}

#[test]
fn unresolved_git_location_fails() {
    let e = interpret(&format!("{}[dependencies.bar]\ngit = \"no url\"\n", PACKAGE)).unwrap_err();
    assert_eq!(e, ManifestError::UnresolvedLocation("no url".to_string()));
}

#[test]
fn invalid_package_version_fails() {
    let e = interpret("[package]\nname = \"foo\"\nversion = \"one\"\n").unwrap_err();
    assert_eq!(e, ManifestError::InvalidPackageId("foo".to_string()));
    let p = TomlProject { name: String::new(), version: "1.0.0".to_string(), authors: vec![], build: None };
    assert!(p.to_package_id(&ambient().location).is_err());
}

#[test]
fn parse_gives_root_entries() {
    let root = parse("a = true\nb = [1, \"x\"]\n", "f.toml").unwrap();
    assert_eq!(root.len(), 2);
    assert_eq!(root[0].0, "a");
    assert!(matches!(root[0].1, Tree::Bool(true)));
    match &root[1].1 {
        Tree::Array(items) => {
            assert!(matches!(items[0], Tree::Scalar(Kind::Integer)));
            assert!(matches!(&items[1], Tree::Str(s) if s == "x"));
        }
        _ => panic!("expected an array"),
    }
    assert!(parse("a = ", "f.toml").is_err());
}

#[test]
fn parse_file_name_only_changes_locations() {
    let a = parse("x = 1\n", "a.toml").unwrap();
    let b = parse("x = 1\n", "b.toml").unwrap();
    assert_eq!(a.len(), b.len());
    assert_eq!(a[0].0, b[0].0);
    let ea = parse("x = = 1\n", "a.toml").unwrap_err();
    let eb = parse("x = = 1\n", "b.toml").unwrap_err();
    match (ea, eb) {
        (ManifestError::Syntax(ma), ManifestError::Syntax(mb)) => {
            assert!(ma.contains("\na.toml:1:"), "{}", ma);
            assert_eq!(ma.replace("a.toml", "b.toml"), mb);
        }
        other => panic!("unexpected {:?}", other),
    }
}

#[test]
fn deep_values_keep_their_kind() {
    let mut text = String::from("x = ");
    for _ in 0..40 {
        text.push('[');
    }
    for _ in 0..40 {
        text.push(']');
    }
    text.push('\n');
    let root = parse(&text, "f.toml").unwrap();
    let mut t = &root[0].1;
    let mut depth = 0;
    while let Tree::Array(items) = t {
        t = &items[0];
        depth += 1;
    }
    assert_eq!(depth, 32);
    assert!(matches!(t, Tree::Scalar(Kind::Array)));
}
