use kyle::config::{justfile, makefile, Kylefile};

fn make(content: &str) -> Kylefile {
    makefile::parse(content).unwrap()
}

fn just(content: &str) -> Kylefile {
    justfile::parse(content).unwrap()
}

#[test]
fn a_parsed_file_has_no_name_and_no_includes() {
    for kf in [make("build:\n\tmake\n"), just("build:\n    make\n"), make(""), just("")] {
        assert_eq!(kf.name, "");
        assert!(kf.includes.is_empty());
    }
    assert!(make("").tasks.is_empty());
    assert!(just("").tasks.is_empty());
}

#[test]
fn a_recipe_is_joined_line_by_line() {
    for n in 0..6 {
        let mut content = String::from("before:\n\tx\n# about\nbuild: dep\n");
        let mut expected = Vec::new();
        for i in 0..n {
            let prefix = ["", "@", "-", "@-"][i % 4];
            content.push_str(&format!("\t{prefix}step {i} | tee log\n"));
            expected.push(format!("step {i} | tee log"));
        }
        let kf = make(&content);
        let task = kf.tasks.get("build").unwrap();
        assert_eq!(task.run, expected.join(" && "));
        assert_eq!(task.desc, "about");
        assert_eq!(task.deps, vec!["dep"]);
    }
}

#[test]
fn only_one_marker_of_each_kind_is_stripped() {
    let kf = make("a:\n\t@@echo\n\t--rm\n\t-@keep\n\t@-both\n\t\t\ttabs\n");
    assert_eq!(kf.tasks.get("a").unwrap().run, "@echo && -rm && @keep && both && tabs");
}

#[test]
fn blank_lines_do_not_end_a_recipe() {
    let kf = make("build:\n\techo 1\n\n   \n\techo 2\n\t\n\t@\nnext:\n\techo 3\n");
    assert_eq!(kf.tasks.get("build").unwrap().run, "echo 1 && echo 2");
    assert_eq!(kf.tasks.get("next").unwrap().run, "echo 3");
    let kf = just("build:\n    echo 1\n\n    echo 2\n\t@echo 3\n\nnext:\n    echo 4\n");
    assert_eq!(kf.tasks.get("build").unwrap().run, "echo 1 && echo 2 && echo 3");
    assert_eq!(kf.tasks.get("next").unwrap().run, "echo 4");
}

#[test]
fn a_line_that_is_not_indented_ends_a_recipe() {
    let kf = make("build:\n\techo 1\nVAR = x\n\techo 2\n");
    assert_eq!(kf.tasks.get("build").unwrap().run, "echo 1");
    assert_eq!(kf.tasks.len(), 1);
    let kf = just("build:\n    echo 1\n  echo 2\n    echo 3\n");
    assert_eq!(kf.tasks.get("build").unwrap().run, "echo 1");
}

#[test]
fn a_comment_describes_the_target_that_follows_it() {
    for parse in [make as fn(&str) -> Kylefile, just] {
        let kf = parse("#   Build it  \nbuild:\n");
        assert_eq!(kf.tasks.get("build").unwrap().desc, "Build it");
        let kf = parse("# first\n# second\nbuild:\n");
        assert_eq!(kf.tasks.get("build").unwrap().desc, "second");
        let kf = parse("# kept\n#\n#   \nbuild:\n");
        assert_eq!(kf.tasks.get("build").unwrap().desc, "kept");
        let kf = parse("#!shebang\nbuild:\n");
        assert_eq!(kf.tasks.get("build").unwrap().desc, "!shebang");
    }
}

#[test]
fn a_line_between_comment_and_target_clears_the_description() {
    for parse in [make as fn(&str) -> Kylefile, just] {
        for gap in ["", "   ", "unrelated line", "VAR = x", "x y z"] {
            let kf = parse(&format!("# Build\n{gap}\nbuild:\n"));
            assert_eq!(kf.tasks.get("build").unwrap().desc, "", "{gap:?}");
        }
        let kf = parse("# one\nfirst:\nsecond:\n");
        assert_eq!(kf.tasks.get("first").unwrap().desc, "one");
        assert_eq!(kf.tasks.get("second").unwrap().desc, "");
    }
    assert_eq!(make("# B\n.PHONY: build\nbuild:\n").tasks.get("build").unwrap().desc, "");
    assert_eq!(make("# B\n.SUFFIXES:\nbuild:\n").tasks.get("build").unwrap().desc, "");
    assert_eq!(make("# B\n%.o: %.c\nbuild:\n").tasks.get("build").unwrap().desc, "");
    assert_eq!(just("# B\nset x := 1\nbuild:\n").tasks.get("build").unwrap().desc, "");
    assert_eq!(just("# B\nalias b := build\nbuild:\n").tasks.get("build").unwrap().desc, "");
    assert_eq!(just("# B\n_private:\nbuild:\n").tasks.get("build").unwrap().desc, "");
}

#[test]
fn an_indented_line_outside_a_recipe_keeps_the_description() {
    assert_eq!(make("# B\n\tstray\nbuild:\n").tasks.get("build").unwrap().desc, "B");
    assert_eq!(just("# B\n    stray\nbuild:\n").tasks.get("build").unwrap().desc, "B");
    assert_eq!(make("# B\n    stray\nbuild:\n").tasks.get("build").unwrap().desc, "");
}

#[test]
fn special_and_private_names_define_no_task() {
    let kf = make(".PHONY: a\n.DEFAULT:\n\tx\n%.o: %.c\n\tcc\n.c.o:\n\tcc\na%b: c\nok: d\n\ty\n");
    assert_eq!(kf.tasks.names(), vec!["ok"]);
    for name in kf.tasks.names() {
        assert!(!name.starts_with('.') && !name.contains('%'));
    }
    let kf = just("_a:\n    x\n__b arg: c\n    y\nok: _a\n    z\n_:\n");
    assert_eq!(kf.tasks.names(), vec!["ok"]);
    assert_eq!(kf.tasks.get("ok").unwrap().deps, vec!["_a"]);
    let kf = make("_a:\n\tx\n");
    assert_eq!(kf.tasks.names(), vec!["_a"]);
}

#[test]
fn dependencies_that_are_left_out() {
    let kf = make("all: a $(OBJS) %.o b$$c x%y ${V} pre$(V) c\n");
    assert_eq!(kf.tasks.get("all").unwrap().deps, vec!["a", "b$$c", "pre$(V)", "c"]);
    let kf = just("all: a (b \"arg\") c=d e (f) g\n");
    assert_eq!(kf.tasks.get("all").unwrap().deps, vec!["a", "\"arg\")", "e", "g"]);
}

#[test]
fn recipes_with_parameters() {
    let kf = just("build target='debug' *flags: compile\n    cargo build {{flags}}\n");
    let task = kf.tasks.get("build").unwrap();
    assert_eq!(task.deps, vec!["compile"]);
    assert_eq!(task.run, "cargo build {{flags}}");
    assert!(just("build :\n").tasks.is_empty());
    assert_eq!(just("build  :\n").tasks.names(), vec!["build"]);
    assert_eq!(make("build :\n").tasks.names(), vec!["build"]);
    assert!(make("build x: y\n").tasks.is_empty());
}

#[test]
fn assignments_are_no_targets() {
    for content in ["CC := gcc\n", "CC:=gcc\n", "A = b\n", "X ?= y\n", "x:=\n"] {
        assert!(make(content).tasks.is_empty(), "{content:?}");
    }
    assert_eq!(make("x: =y\n").tasks.get("x").unwrap().deps, vec!["=y"]);
}

#[test]
fn the_last_definition_of_a_name_counts() {
    let kf = make("# one\nbuild: a\n\tfirst\n\nbuild:\n\tsecond\n");
    assert_eq!(kf.tasks.len(), 1);
    let task = kf.tasks.get("build").unwrap();
    assert_eq!(task.run, "second");
    assert_eq!(task.desc, "");
    assert!(task.deps.is_empty());
}

#[test]
fn line_endings_of_either_kind() {
    let kf = make("# Build\r\nbuild: dep\r\n\t@make all\r\n\r\ntest:\r\n\tmake test");
    assert_eq!(kf.tasks.get("build").unwrap().desc, "Build");
    assert_eq!(kf.tasks.get("build").unwrap().deps, vec!["dep"]);
    assert_eq!(kf.tasks.get("build").unwrap().run, "make all");
    assert_eq!(kf.tasks.get("test").unwrap().run, "make test");
}

#[test]
fn malformed_input_is_passed_over() {
    for content in [
        "\u{0}\u{1}\u{2}",
        ":::\n===\n\t\t\t\n",
        "build\n\tcmd\n",
        "\tcmd without target\n",
        "é: x\n",
        "#\n#\n#\n",
        ": x\n",
        "a b c\n",
    ] {
        assert!(make(content).tasks.is_empty(), "{content:?}");
        assert!(just(content).tasks.is_empty(), "{content:?}");
    }
}

#[test]
fn an_empty_recipe_has_an_empty_command() {
    assert_eq!(make("build:\n").tasks.get("build").unwrap().run, "");
    assert_eq!(make("build: a\nnext:\n").tasks.get("build").unwrap().deps, vec!["a"]);
    assert_eq!(just("build:").tasks.get("build").unwrap().run, "");
}

#[test]
fn justfile_commands_keep_what_follows_the_marker() {
    let kf = just("a:\n    @  spaced\n    -kept\n     five\n");
    assert_eq!(kf.tasks.get("a").unwrap().run, "  spaced && -kept && five");
}
