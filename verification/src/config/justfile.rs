//! The subset of the justfile format from which tasks are read.
//!
//! A recipe with its dependencies and its body becomes a task. Settings,
//! aliases and private recipes define none.

use crate::config::kylefile::{Includes, IncludesView, Kylefile};
use crate::config::recipe::{
    comment, is_name_start, lemma_names, match_comment, name_start, read_tasks, select, strip,
    tasks_of, Dialect, Line, LineKind,
};
use crate::config::Error;
use crate::text::{
    chars_of, has_char, is_space, is_whitespace, lines, run_len, scan_run, slice, split_lines,
    split_words, starts_with, trim_start, views, words, CharClass,
};
use vstd::prelude::*;

verus! {

/// Whether `line` begins with the keyword `word` and white space after it.
pub open spec fn has_keyword(line: Seq<char>, word: Seq<char>) -> bool {
    word.is_prefix_of(line) && word.len() < line.len() && is_space(line[word.len() as int])
}

/// Whether `line` is a setting or an alias: it begins with `set` or `alias`
/// and white space.
pub open spec fn is_declaration(line: Seq<char>) -> bool {
    has_keyword(line, "set"@) || has_keyword(line, "alias"@)
}

/// The name of the recipe that `line` declares and the text after its colon.
///
/// A recipe header is a name and a colon, or a name, white space, at least
/// one more character and then the line's first colon: what stands between
/// are the recipe's parameters. The name begins with a letter or `_` and goes
/// on with letters, digits, `_` and `-`.
pub open spec fn recipe(line: Seq<char>) -> Option<(Seq<char>, Seq<char>)> {
    let n = run_len(line, CharClass::Name) as int;
    let gap = run_len(line.skip(n), CharClass::NotColon) as int;
    if line.len() > 0 && is_name_start(line[0]) && n + gap < line.len() && (gap == 0 || (gap >= 2
        && is_space(line[n]))) {
        Some((line.take(n), line.skip(n + gap + 1)))
    } else {
        None
    }
}

/// Whether a recipe of this name is private, and so defines no task: its
/// name begins with `_`.
pub open spec fn is_private(name: Seq<char>) -> bool {
    name.len() > 0 && name[0] == '_'
}

/// Whether `word` of a recipe header is kept as a dependency: not a call
/// with arguments, which begins with `(`, and nothing that holds `=`.
pub open spec fn is_dependency(word: Seq<char>) -> bool {
    !(word.len() > 0 && word[0] == '(') && !word.contains('=')
}

/// The dependencies that the text after a recipe's colon names.
pub open spec fn dependencies(rest: Seq<char>) -> Seq<Seq<char>> {
    select(words(rest), |w: Seq<char>| is_dependency(w))
}

/// What `line` is, read outside a recipe's body.
pub open spec fn line_kind(line: Seq<char>) -> LineKind {
    if is_declaration(line) {
        LineKind::Inert
    } else if let Some(text) = comment(line) {
        LineKind::Comment(text)
    } else if let Some((name, rest)) = recipe(line) {
        if is_private(name) {
            LineKind::Inert
        } else {
            LineKind::Header(name, dependencies(rest))
        }
    } else {
        LineKind::Other
    }
}

/// Whether `line` belongs to a recipe's body: it begins with four spaces or
/// with a tab.
pub open spec fn is_command_line(line: Seq<char>) -> bool {
    "    "@.is_prefix_of(line) || (line.len() > 0 && line[0] == '\t')
}

/// The text of a body line: the line without its leading white space and
/// one `@` (run quietly).
pub open spec fn command_text(line: Seq<char>) -> Seq<char> {
    strip(trim_start(line), '@')
}

/// The command that a body line gives: its text, unless that is empty.
pub open spec fn command_of(line: Seq<char>) -> Option<Seq<char>> {
    if command_text(line).len() == 0 {
        None
    } else {
        Some(command_text(line))
    }
}

/// The tasks that a justfile of this text defines.
pub open spec fn parsed(content: Seq<char>) -> Map<Seq<char>, crate::config::TaskView> {
    tasks_of(Dialect::Just, lines(content))
}

/// No task is named as a private recipe is.
pub proof fn lemma_no_private_task(content: Seq<char>)
    ensures
        forall|name: Seq<char>| #[trigger] parsed(content).contains_key(name) ==> !is_private(name),
{
    lemma_names(Dialect::Just, lines(content));
}

/// Tests whether `line` begins with the keyword `word` and white space.
fn match_keyword(line: &Vec<char>, word: &str) -> (yes: bool)
    ensures
        yes == has_keyword(line@, word@),
{
    let head = chars_of(word);
    starts_with(line, &head) && head.len() < line.len() && is_whitespace(line[head.len()])
}

/// Tests whether `line` is a setting or an alias.
pub fn match_declaration(line: &Vec<char>) -> (yes: bool)
    ensures
        yes == is_declaration(line@),
{
    match_keyword(line, "set") || match_keyword(line, "alias")
}

/// The name of the recipe that `line` declares and the text after its colon,
/// if it declares one.
pub fn match_recipe(line: &Vec<char>) -> (out: Option<(Vec<char>, Vec<char>)>)
    ensures
        match out {
            Some((name, rest)) => recipe(line@) == Some((name@, rest@)),
            None => recipe(line@) is None,
        },
{
    if line.len() == 0 || !name_start(line[0]) {
        return None;
    }
    assert(line@.skip(0) =~= line@);
    let n = scan_run(line, 0, CharClass::Name);
    let colon = scan_run(line, n, CharClass::NotColon);
    if colon < line.len() && (colon == n || (colon - n >= 2 && is_whitespace(line[n]))) {
        let name = slice(line, 0, n);
        let rest = slice(line, colon + 1, line.len());
        proof {
            assert(name@ =~= line@.take(n as int));
            assert(rest@ =~= line@.skip(colon + 1));
        }
        Some((name, rest))
    } else {
        None
    }
}

/// The dependencies that the text after a recipe's colon names.
pub fn read_dependencies(rest: &Vec<char>) -> (out: Vec<Vec<char>>)
    ensures
        views(out@) == dependencies(rest@),
{
    let all = split_words(rest);
    let mut out: Vec<Vec<char>> = Vec::new();
    let ghost keep = |w: Seq<char>| is_dependency(w);
    let ghost ws = views(all@);
    assert(ws.take(0) =~= Seq::<Seq<char>>::empty());
    assert(views(out@) =~= Seq::<Seq<char>>::empty());
    let mut i: usize = 0;
    while i < all.len()
        invariant
            i <= all.len(),
            ws == views(all@),
            keep == (|w: Seq<char>| is_dependency(w)),
            views(out@) == select(ws.take(i as int), keep),
        decreases all.len() - i,
    {
        let word = &all[i];
        let ghost before = views(out@);
        proof {
            let now = ws.take(i + 1);
            assert(now.drop_last() =~= ws.take(i as int));
            assert(now.last() == word@);
        }
        if !(word.len() > 0 && word[0] == '(') && !has_char(word, '=') {
            out.push(slice(word, 0, word.len()));
            assert(word@.subrange(0, word.len() as int) =~= word@);
            assert(views(out@) =~= before.push(word@));
        }
        i += 1;
    }
    assert(ws.take(all.len() as int) =~= ws);
    out
}

/// What `line` is, read outside a recipe's body.
pub fn classify(line: &Vec<char>) -> (out: Line)
    ensures
        out@ == line_kind(line@),
{
    if match_declaration(line) {
        return Line::Inert;
    }
    if let Some(text) = match_comment(line) {
        return Line::Comment(text);
    }
    if let Some((name, rest)) = match_recipe(line) {
        if name.len() > 0 && name[0] == '_' {
            return Line::Inert;
        }
        let deps = read_dependencies(&rest);
        return Line::Header(name, deps);
    }
    Line::Other
}

/// Tests whether `line` belongs to a recipe's body.
pub fn command_line(line: &Vec<char>) -> (yes: bool)
    ensures
        yes == is_command_line(line@),
{
    let indent = chars_of("    ");
    starts_with(line, &indent) || (line.len() > 0 && line[0] == '\t')
}

/// The command that a body line gives, if it gives one.
pub fn read_command(line: &Vec<char>) -> (out: Option<Vec<char>>)
    ensures
        match out {
            Some(cmd) => command_of(line@) == Some(cmd@),
            None => command_of(line@) is None,
        },
{
    assert(line@.skip(0) =~= line@);
    let mut from = scan_run(line, 0, CharClass::Space);
    let ghost a = line@.skip(from as int);
    if from < line.len() && line[from] == '@' {
        assert(a.skip(1) =~= line@.skip(from + 1));
        from += 1;
    }
    let cmd = slice(line, from, line.len());
    assert(cmd@ =~= line@.skip(from as int));
    if cmd.len() == 0 {
        None
    } else {
        Some(cmd)
    }
}

/// Reads the tasks of a justfile. Lines that are not recognized define
/// nothing, so every text is accepted.
pub fn parse(content: &str) -> (out: Result<Kylefile, Error>)
    ensures
        out matches Ok(file) && file.name@ == Seq::<char>::empty() && file.includes@
            == IncludesView::Absent && file.tasks@ == parsed(content@),
        out matches Ok(file) && forall|name: Seq<char>| #[trigger]
            file.tasks@.contains_key(name) ==> !is_private(name),
{
    let text = chars_of(content);
    let all = split_lines(&text);
    let tasks = read_tasks(Dialect::Just, &all);
    proof {
        lemma_no_private_task(content@);
        assert forall|name: Seq<char>| #[trigger] tasks@.contains_key(name) implies !is_private(
            name,
        ) by {
            assert(parsed(content@).contains_key(name));
        }
    }
    Ok(Kylefile { name: String::new(), includes: Includes::Absent, tasks })
}

} // verus!
