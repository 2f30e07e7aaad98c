use kyle::namespace::discovery::{
    alias_of, candidate, detect_file_type, discover_namespaces, is_project_file, is_skipped_dir,
    precedes, type_indicator, DiscoveredNamespace, FileType,
};
use std::path::PathBuf;

fn found(relative: &str, file_name: &str) -> DiscoveredNamespace {
    candidate(relative, file_name, PathBuf::from("/root").join(relative)).unwrap()
}

#[test]
fn test_discover_namespaces_empty_dir() {
    let namespaces = discover_namespaces(Vec::new());
    assert!(namespaces.is_empty());
}

#[test]
fn test_discover_single_namespace() {
    let namespaces = discover_namespaces(vec![found("backend", "Kylefile")]);
    assert_eq!(namespaces.len(), 1);
    assert_eq!(namespaces[0].alias, "backend");
    assert_eq!(namespaces[0].file_type, FileType::Kylefile);
}

#[test]
fn test_discover_nested_namespace() {
    let relative = PathBuf::from("apps").join("frontend");
    let namespaces =
        discover_namespaces(vec![found(relative.to_str().unwrap(), "Kylefile.toml")]);
    assert_eq!(namespaces.len(), 1);
    assert_eq!(namespaces[0].alias, "apps/frontend");
}

#[test]
fn test_skip_node_modules() {
    assert!(is_skipped_dir("node_modules"));
}

#[test]
fn test_detect_makefile_type() {
    let namespaces = discover_namespaces(vec![found("backend", "Makefile")]);
    assert_eq!(namespaces.len(), 1);
    assert_eq!(namespaces[0].file_type, FileType::Makefile);
}

#[test]
fn test_detect_justfile_type() {
    let namespaces = discover_namespaces(vec![found("backend", "justfile")]);
    assert_eq!(namespaces.len(), 1);
    assert_eq!(namespaces[0].file_type, FileType::Justfile);
}

#[test]
fn test_kylefile_takes_precedence() {
    let namespaces =
        discover_namespaces(vec![found("backend", "Kylefile"), found("backend", "Makefile")]);
    assert_eq!(namespaces.len(), 1);
    assert_eq!(namespaces[0].alias, "backend");
    assert_eq!(namespaces[0].file_type, FileType::Kylefile);
}

#[test]
fn kylefile_takes_precedence_whatever_the_order() {
    let namespaces = discover_namespaces(vec![
        found("backend", "justfile"),
        found("backend", "Makefile"),
        found("backend", "Kylefile"),
    ]);
    assert_eq!(namespaces.len(), 1);
    assert_eq!(namespaces[0].file_type, FileType::Kylefile);
    let namespaces =
        discover_namespaces(vec![found("backend", "justfile"), found("backend", "makefile")]);
    assert_eq!(namespaces.len(), 1);
    assert_eq!(namespaces[0].file_type, FileType::Makefile);
}

#[test]
fn of_one_format_the_first_found_counts() {
    let first = DiscoveredNamespace {
        alias: "a".into(),
        path: PathBuf::from("/first"),
        file_type: FileType::Makefile,
    };
    let second = DiscoveredNamespace {
        alias: "a".into(),
        path: PathBuf::from("/second"),
        file_type: FileType::Makefile,
    };
    let namespaces = discover_namespaces(vec![first, second]);
    assert_eq!(namespaces.len(), 1);
    assert_eq!(namespaces[0].path, PathBuf::from("/first"));
}

#[test]
fn namespaces_come_sorted_and_once() {
    let namespaces = discover_namespaces(vec![
        found("web", "Makefile"),
        found("api", "justfile"),
        found("web/admin", "Kylefile.yml"),
        found("api", "Kylefile"),
        found("Zeta", "GNUmakefile"),
        found("web", "Justfile"),
    ]);
    let aliases: Vec<&str> = namespaces.iter().map(|n| n.alias.as_str()).collect();
    assert_eq!(aliases, vec!["Zeta", "api", "web", "web/admin"]);
    let types: Vec<FileType> = namespaces.iter().map(|n| n.file_type).collect();
    assert_eq!(
        types,
        vec![FileType::Makefile, FileType::Kylefile, FileType::Makefile, FileType::Kylefile]
    );
    assert_eq!(namespaces[3].path, PathBuf::from("/root").join("web/admin"));
}

#[test]
fn order_of_strings() {
    let cases = ["", "a", "ab", "abc", "b", "B", "a/b", "a-b", "é", "z", "web", "web/admin"];
    for a in cases {
        for b in cases {
            let x: Vec<char> = a.chars().collect();
            let y: Vec<char> = b.chars().collect();
            assert_eq!(precedes(&x, &y), a < b, "{a:?} {b:?}");
        }
    }
}

#[test]
fn skipped_directories() {
    for name in [
        "node_modules", "target", ".git", ".hg", ".svn", "vendor", "__pycache__", ".venv", "venv",
        "dist", "build", ".next", ".nuxt",
    ] {
        assert!(is_skipped_dir(name), "{name}");
    }
    for name in ["src", "backend", "Target", "node_modules2", "", ".github", "builds"] {
        assert!(!is_skipped_dir(name), "{name}");
    }
}

#[test]
fn project_files_and_their_types() {
    for name in ["Kylefile", "Kylefile.yaml", "Kylefile.yml", "Kylefile.toml"] {
        assert!(is_project_file(name));
        assert_eq!(detect_file_type(name), FileType::Kylefile);
    }
    for name in ["Makefile", "makefile", "GNUmakefile"] {
        assert!(is_project_file(name));
        assert_eq!(detect_file_type(name), FileType::Makefile);
    }
    for name in ["justfile", "Justfile"] {
        assert!(is_project_file(name));
        assert_eq!(detect_file_type(name), FileType::Justfile);
    }
    for name in ["kylefile", "Makefile.am", "JUSTFILE", "README.md", ""] {
        assert!(!is_project_file(name), "{name}");
    }
}

#[test]
fn candidates() {
    assert!(candidate("", "Kylefile", PathBuf::from("/root")).is_none());
    assert!(candidate("backend", "README.md", PathBuf::from("/root/backend")).is_none());
    let ns = candidate("apps\\frontend", "Makefile", PathBuf::from("/r")).unwrap();
    assert_eq!(ns.alias, "apps/frontend");
    assert_eq!(ns.path, PathBuf::from("/r"));
    assert_eq!(ns.file_type, FileType::Makefile);
    assert_eq!(alias_of("a\\b\\c/d"), "a/b/c/d");
    assert_eq!(alias_of(""), "");
}

#[test]
fn type_indicators() {
    assert_eq!(type_indicator(FileType::Kylefile), "");
    assert_eq!(type_indicator(FileType::Makefile), " (Makefile)");
    assert_eq!(type_indicator(FileType::Justfile), " (justfile)");
}
