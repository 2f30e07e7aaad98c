use kyle::config::recipe::match_comment;
use kyle::config::{justfile, makefile};
use regex::Regex;

fn chars(s: &str) -> Vec<char> {
    s.chars().collect()
}

fn text(v: &[char]) -> String {
    v.iter().collect()
}

const SAMPLES: &[&str] = &[
    "",
    " ",
    "\t",
    "build:",
    "build: ",
    "build:deps",
    "build: a b  c",
    "build : a",
    "build  : a",
    "build\t:\ta",
    "build \t : a",
    "test: build",
    "all: $(OBJS) %.o lib",
    "CC := gcc",
    "CC = gcc",
    "CC:=gcc",
    "CC ?= gcc",
    "x:=",
    "x: =y",
    "x:y=z",
    "a.b-c_d: e",
    "a-b:",
    "_private:",
    "_helper: dep",
    "9lives: x",
    "-x: y",
    ".PHONY: build test",
    ".PHONY:build",
    ".PHONY :  x",
    ".PHONY:",
    ".PHONY: ",
    ".PHONY:\t",
    ".PHONY\u{a0}:x",
    ".PHONYX: a",
    ".phony: a",
    ".SUFFIXES:",
    ".SUFFIXES: .c .o",
    "%.o: %.c",
    "# comment",
    "#",
    "#   ",
    "#comment",
    "#  spaced out  ",
    "#\ttabbed",
    "#!shebang",
    "# ! bang",
    " # indented comment",
    "\tcommand",
    "\t@echo hi",
    "    indented",
    "set shell := [\"bash\", \"-c\"]",
    "set",
    "set ",
    "set\tx",
    "set\u{2003}x",
    "settings: a",
    "setup:",
    "alias b := build",
    "alias",
    "alias\tb",
    "aliases: x",
    "build target: dep",
    "build target='x' other=\"y\": dep1 (dep2 arg) k=v dep3",
    "build a:",
    "build  :",
    "build \t:",
    "build x y z : d",
    "deploy env=\"prod\": build",
    "a::b",
    "a: b: c",
    "a b: c: d",
    "name",
    "name with words",
    "two words",
    "ünïcode: x",
    "build: ünïcode",
    "build:\u{3000}wide space",
    "build\u{3000}p: d",
    "build\r",
    "build:\r",
    "build: a\r",
    "$(VAR): x",
    "export FOO=bar",
    "if x:",
    "include other.mk",
    "a:b:c=d",
    "A_B-9.z:   q  ",
    "x : = y",
    "x:\t=y",
];

fn captures(re: &Regex, line: &str) -> Option<(String, String)> {
    re.captures(line).map(|caps| {
        (caps[1].to_string(), caps.get(2).map(|m| m.as_str()).unwrap_or("").to_string())
    })
}

#[test]
fn makefile_targets_are_the_lines_that_the_pattern_takes() {
    let re = Regex::new(r"^([a-zA-Z_][a-zA-Z0-9_\-\.]*)[ \t]*:([^=].*)?$").unwrap();
    for line in SAMPLES {
        let ours = makefile::match_target(&chars(line)).map(|(n, r)| (text(&n), text(&r)));
        assert_eq!(ours, captures(&re, line), "{line:?}");
    }
}

#[test]
fn makefile_phony_lines_are_the_lines_that_the_pattern_takes() {
    let re = Regex::new(r"^\.PHONY\s*:\s*(.+)$").unwrap();
    for line in SAMPLES {
        assert_eq!(makefile::match_phony(&chars(line)), re.is_match(line), "{line:?}");
    }
}

#[test]
fn comments_are_the_lines_that_the_pattern_takes() {
    let re = Regex::new(r"^#\s*(.*)$").unwrap();
    for line in SAMPLES {
        let ours = match_comment(&chars(line)).map(|t| text(&t));
        let theirs = re.captures(line).map(|caps| caps[1].trim().to_string());
        assert_eq!(ours, theirs, "{line:?}");
    }
}

#[test]
fn justfile_recipes_are_the_lines_that_the_pattern_takes() {
    let re = Regex::new(r"^([a-zA-Z_][a-zA-Z0-9_\-]*)(?:\s+[^:]+)?:\s*(.*)$").unwrap();
    for line in SAMPLES {
        let ours = justfile::match_recipe(&chars(line));
        let theirs = captures(&re, line);
        assert_eq!(ours.is_some(), theirs.is_some(), "{line:?}");
        if let (Some((name, rest)), Some((their_name, their_rest))) = (ours, theirs) {
            assert_eq!(text(&name), their_name, "{line:?}");
            assert_eq!(text(&rest).trim_start(), their_rest, "{line:?}");
            let deps: Vec<String> =
                justfile::read_dependencies(&rest).iter().map(|d| text(d)).collect();
            let their_deps: Vec<String> = their_rest
                .split_whitespace()
                .filter(|d| !d.starts_with('(') && !d.contains('='))
                .map(|s| s.to_string())
                .collect();
            assert_eq!(deps, their_deps, "{line:?}");
        }
    }
}

#[test]
fn justfile_declarations_are_the_lines_that_the_patterns_take() {
    let set = Regex::new(r"^set\s+").unwrap();
    let alias = Regex::new(r"^alias\s+").unwrap();
    for line in SAMPLES {
        assert_eq!(
            justfile::match_declaration(&chars(line)),
            set.is_match(line) || alias.is_match(line),
            "{line:?}"
        );
    }
}

#[test]
fn makefile_dependencies_are_the_words_that_are_kept() {
    for line in SAMPLES {
        let ours: Vec<String> =
            makefile::read_dependencies(&chars(line)).iter().map(|d| text(d)).collect();
        let theirs: Vec<String> = line
            .split_whitespace()
            .filter(|d| !d.starts_with('$') && !d.contains('%'))
            .map(|s| s.to_string())
            .collect();
        assert_eq!(ours, theirs, "{line:?}");
    }
}

#[test]
fn makefile_commands_are_stripped_as_the_format_says() {
    for line in ["\tgcc -o x", "\t\t@echo", "\t@-rm x", "\t-@rm x", "\t", "\t@", "\t  ", "\t@ x ", "\t--x", "\t@@x"] {
        let cmd = line.trim_start_matches('\t');
        let cmd = cmd.strip_prefix('@').unwrap_or(cmd);
        let cmd = cmd.strip_prefix('-').unwrap_or(cmd);
        let theirs = if cmd.trim().is_empty() { None } else { Some(cmd.to_string()) };
        assert!(makefile::command_line(&chars(line)));
        assert_eq!(makefile::read_command(&chars(line)).map(|c| text(&c)), theirs, "{line:?}");
    }
    assert!(!makefile::command_line(&chars("    x")));
    assert!(!makefile::command_line(&chars("")));
}

#[test]
fn justfile_commands_are_stripped_as_the_format_says() {
    for line in ["    cargo build", "\tcargo", "     @echo", "    @", "    ", "\t", "    @  ", "    -x", "\t \u{a0}x"] {
        let cmd = line.trim_start();
        let cmd = cmd.strip_prefix('@').unwrap_or(cmd);
        let theirs = if cmd.is_empty() { None } else { Some(cmd.to_string()) };
        assert!(justfile::command_line(&chars(line)));
        assert_eq!(justfile::read_command(&chars(line)).map(|c| text(&c)), theirs, "{line:?}");
    }
    assert!(!justfile::command_line(&chars("   x")));
    assert!(!justfile::command_line(&chars("")));
}
