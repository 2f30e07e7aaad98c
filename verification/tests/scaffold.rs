use kyle::cli::init::{generate_kylefile, generate_toml, generate_yaml, TaskDef};
use kyle::cli::upgrade::{
    archive_kind, expected_checksum, find_asset, first_word, get_target, is_up_to_date,
    plan_upgrade, release_from, version, Archive, ChecksumError, Plan, ReleaseError,
};

fn def(name: &str, desc: &str, run: &str) -> TaskDef {
    TaskDef { name: name.into(), desc: desc.into(), run: run.into() }
}

#[test]
fn init_with_name_toml() {
    let content = generate_kylefile("toml", "1.2.3", "myproject", &[]);
    assert!(content.contains("# kyle: toml"));
    assert!(content.contains("version = "));
    assert!(content.contains("name = \"myproject\""));
    assert_eq!(
        content,
        "# kyle: toml\nversion = \"1.2.3\"\nname = \"myproject\"\n\n# [tasks.example]\n# desc = \
         \"An example task\"\n# run = \"echo hello\"\n"
    );
}

#[test]
fn init_with_name_yaml() {
    let content = generate_kylefile("yaml", "1.2.3", "myproject", &[]);
    assert!(content.contains("# kyle: yaml"));
    assert!(content.contains("version:"));
    assert!(content.contains("name: myproject"));
    assert_eq!(
        content,
        "# kyle: yaml\nversion: \"1.2.3\"\nname: myproject\n\ntasks:\n  # example:\n  #   desc: An \
         example task\n  #   run: echo hello\n"
    );
}

#[test]
fn a_new_kylefile_with_tasks() {
    let tasks = [def("build", "Build it", "make"), def("test", "", "make test")];
    assert_eq!(
        generate_yaml("0.1.0", "p", &tasks),
        "# kyle: yaml\nversion: \"0.1.0\"\nname: p\n\ntasks:\n  build:\n    desc: Build it\n    \
         run: make\n  test:\n    run: make test\n"
    );
    assert_eq!(
        generate_toml("0.1.0", "p", &tasks),
        "# kyle: toml\nversion = \"0.1.0\"\nname = \"p\"\n\n[tasks.build]\ndesc = \"Build \
         it\"\nrun = \"make\"\n\n[tasks.test]\nrun = \"make test\"\n"
    );
}

#[test]
fn any_format_but_yaml_gives_toml() {
    let tasks = [def("a", "", "b")];
    for format in ["toml", "", "YAML", "json"] {
        assert_eq!(generate_kylefile(format, "1", "n", &tasks), generate_toml("1", "n", &tasks));
    }
    assert_eq!(generate_kylefile("yaml", "1", "n", &tasks), generate_yaml("1", "n", &tasks));
}

#[test]
fn targets() {
    assert_eq!(get_target("linux", "x86_64"), "x86_64-unknown-linux-musl");
    assert_eq!(get_target("linux", "aarch64"), "aarch64-unknown-linux-musl");
    assert_eq!(get_target("macos", "x86_64"), "x86_64-apple-darwin");
    assert_eq!(get_target("macos", "aarch64"), "aarch64-apple-darwin");
    assert_eq!(get_target("windows", "x86_64"), "x86_64-pc-windows-msvc");
    assert_eq!(get_target("windows", "aarch64"), "aarch64-windows");
    assert_eq!(get_target("freebsd", "riscv64"), "riscv64-freebsd");
}

#[test]
fn versions() {
    assert_eq!(version("v1.2.3"), "1.2.3");
    assert_eq!(version("1.2.3"), "1.2.3");
    assert_eq!(version("vv1"), "1");
    assert_eq!(version("v"), "");
    assert_eq!(version("1v"), "1v");
    assert!(is_up_to_date("1.2.3", "v1.2.3"));
    assert!(is_up_to_date("v1.2.3", "1.2.3"));
    assert!(!is_up_to_date("1.2.3", "v1.2.4"));
    assert!(!is_up_to_date("1.2.3", "V1.2.3"));
}

#[test]
fn the_first_file_for_the_target_is_taken() {
    let names: Vec<String> = [
        "kyle-aarch64-apple-darwin.tar.gz",
        "kyle-x86_64-unknown-linux-musl.tar.gz",
        "kyle-x86_64-unknown-linux-musl.tar.gz.sig",
        "SHA256SUMS",
    ]
    .iter()
    .map(|s| s.to_string())
    .collect();
    assert_eq!(find_asset(&names, "x86_64-unknown-linux-musl"), Some(1));
    assert_eq!(find_asset(&names, "aarch64-apple-darwin"), Some(0));
    assert_eq!(find_asset(&names, "windows"), None);
    assert_eq!(find_asset(&names, ""), Some(0));
    assert_eq!(find_asset(&vec![], "x"), None);
}

#[test]
fn archives() {
    assert_eq!(archive_kind("/tmp/kyle-x.tar.gz"), Some(Archive::TarGz));
    assert_eq!(archive_kind("kyle.zip"), Some(Archive::Zip));
    assert_eq!(archive_kind(".zip"), Some(Archive::Zip));
    assert_eq!(archive_kind("kyle.tar"), None);
    assert_eq!(archive_kind("kyle.tar.gz.sig"), None);
    assert_eq!(archive_kind("kyle.ZIP"), None);
    assert_eq!(archive_kind(""), None);
}

#[test]
fn checksums() {
    let sums = "abc123  kyle-linux.tar.gz\ndef456  kyle-macos.tar.gz\n  \tfff  kyle-linux.tar.gz\n";
    assert_eq!(expected_checksum(sums, "kyle-linux.tar.gz"), Ok("abc123".to_string()));
    assert_eq!(expected_checksum(sums, "kyle-macos.tar.gz"), Ok("def456".to_string()));
    assert_eq!(expected_checksum(sums, "macos"), Ok("def456".to_string()));
    assert_eq!(expected_checksum(sums, "kyle-windows.zip"), Err(ChecksumError::NotListed));
    assert_eq!(expected_checksum("", "x"), Err(ChecksumError::NotListed));
    assert_eq!(expected_checksum("\n \nabc x\n", ""), Err(ChecksumError::Malformed));
    assert_eq!(expected_checksum("a b\n", " "), Ok("a".to_string()));
    assert_eq!(expected_checksum("kyle.zip\n", "kyle.zip"), Ok("kyle.zip".to_string()));
    assert_eq!(first_word("abc123  /tmp/kyle.tar.gz\n"), "abc123");
    assert_eq!(first_word("  \n"), "");
    assert_eq!(first_word(""), "");
}

#[test]
fn releases() {
    assert_eq!(release_from(None, None).unwrap_err(), ReleaseError::MissingTagName);
    assert_eq!(release_from(None, Some(vec![])).unwrap_err(), ReleaseError::MissingTagName);
    assert_eq!(release_from(Some("v1".into()), None).unwrap_err(), ReleaseError::MissingAssets);
    let release = release_from(
        Some("v1.0.0".into()),
        Some(vec![
            (Some("a".into()), Some("https://x/a".into())),
            (None, Some("https://x/b".into())),
            (Some("c".into()), None),
            (None, None),
            (Some("d".into()), Some("https://x/d".into())),
        ]),
    )
    .unwrap();
    assert_eq!(release.tag_name, "v1.0.0");
    let kept: Vec<(&str, &str)> = release
        .assets
        .iter()
        .map(|a| (a.name.as_str(), a.browser_download_url.as_str()))
        .collect();
    assert_eq!(kept, vec![("a", "https://x/a"), ("d", "https://x/d")]);
    assert!(release_from(Some("v1".into()), Some(vec![])).unwrap().assets.is_empty());
}

#[test]
fn upgrade_plans() {
    let release = release_from(
        Some("v2.0.0".into()),
        Some(vec![
            (Some("kyle-aarch64-apple-darwin.tar.gz".into()), Some("https://x/mac".into())),
            (Some("kyle-x86_64-unknown-linux-musl.tar.gz".into()), Some("https://x/linux".into())),
            (Some("kyle-x86_64-unknown-linux-musl.zip".into()), Some("https://x/other".into())),
        ]),
    )
    .unwrap();
    assert!(matches!(plan_upgrade("2.0.0", &release, "linux", "x86_64"), Plan::UpToDate));
    assert!(matches!(plan_upgrade("v2.0.0", &release, "plan9", "mips"), Plan::UpToDate));
    match plan_upgrade("1.9.0", &release, "linux", "x86_64") {
        Plan::Download(asset) => {
            assert_eq!(asset.name, "kyle-x86_64-unknown-linux-musl.tar.gz");
            assert_eq!(asset.browser_download_url, "https://x/linux");
        }
        other => panic!("{other:?}"),
    }
    match plan_upgrade("1.9.0", &release, "macos", "aarch64") {
        Plan::Download(asset) => assert_eq!(asset.browser_download_url, "https://x/mac"),
        other => panic!("{other:?}"),
    }
    match plan_upgrade("1.9.0", &release, "windows", "x86_64") {
        Plan::NoBinary(target) => assert_eq!(target, "x86_64-pc-windows-msvc"),
        other => panic!("{other:?}"),
    }
}
