use kyle::config::makefile::parse;

#[test]
fn parse_simple_target() {
    let content = "build:\n\tgcc -o main main.c\n";
    let kf = parse(content).unwrap();
    assert!(kf.tasks.contains_key("build"));
    assert_eq!(kf.tasks.get("build").unwrap().run, "gcc -o main main.c");
}

#[test]
fn parse_target_with_deps() {
    let content = "test: build\n\t./run_tests.sh\n";
    let kf = parse(content).unwrap();
    assert_eq!(kf.tasks.get("test").unwrap().deps, vec!["build"]);
}

#[test]
fn makefile_parse_comment_as_description() {
    let content = "# Build the project\nbuild:\n\tmake all\n";
    let kf = parse(content).unwrap();
    assert_eq!(kf.tasks.get("build").unwrap().desc, "Build the project");
}

#[test]
fn parse_phony_targets() {
    let content = ".PHONY: build test\n\nbuild:\n\techo build\n";
    let kf = parse(content).unwrap();
    assert!(kf.tasks.contains_key("build"));
}

#[test]
fn skip_pattern_rules() {
    let content = "%.o: %.c\n\tgcc -c $<\n\nbuild:\n\techo build\n";
    let kf = parse(content).unwrap();
    assert!(!kf.tasks.contains_key("%.o"));
    assert!(kf.tasks.contains_key("build"));
}

#[test]
fn makefile_multi_line_commands() {
    let content = "build:\n\techo step1\n\techo step2\n";
    let kf = parse(content).unwrap();
    assert_eq!(kf.tasks.get("build").unwrap().run, "echo step1 && echo step2");
}

#[test]
fn skip_variable_assignments() {
    let content = "CC := gcc\n\nbuild:\n\t$(CC) main.c\n";
    let kf = parse(content).unwrap();
    assert!(kf.tasks.contains_key("build"));
    assert!(!kf.tasks.contains_key("CC"));
}

#[test]
fn handle_silent_prefix() {
    let content = "build:\n\t@echo building\n";
    let kf = parse(content).unwrap();
    assert_eq!(kf.tasks.get("build").unwrap().run, "echo building");
}

#[test]
fn handle_ignore_errors_prefix() {
    let content = "clean:\n\t-rm -rf build/\n";
    let kf = parse(content).unwrap();
    assert_eq!(kf.tasks.get("clean").unwrap().run, "rm -rf build/");
}

#[test]
fn multiple_targets() {
    let content = "# Build\nbuild:\n\techo build\n\n# Test\ntest: build\n\techo test\n";
    let kf = parse(content).unwrap();
    assert_eq!(kf.tasks.len(), 2);
    assert_eq!(kf.tasks.get("build").unwrap().desc, "Build");
    assert_eq!(kf.tasks.get("test").unwrap().desc, "Test");
    assert_eq!(kf.tasks.get("test").unwrap().deps, vec!["build"]);
}
