//! The subset of the Makefile format from which tasks are read.
//!
//! A target with its prerequisites and its recipe becomes a task. Pattern
//! rules, variables, conditionals and includes are not read.

use crate::config::kylefile::{Includes, IncludesView, Kylefile};
use crate::config::recipe::{
    collected, comment, is_name_start, lemma_names, lemma_task_defined, match_comment,
    name_start, read_tasks, select, strip, tasks_of, Dialect, Line, LineKind,
};
use crate::config::Error;
use crate::text::{
    blank, chars_of, has_char, is_blank, join, lines, run_len, scan_run, slice, split_lines,
    split_words, starts_with, views, words, CharClass,
};
use vstd::prelude::*;

verus! {

/// Whether `line` declares phony targets: `.PHONY`, white space if any, a
/// colon, and at least one more character.
pub open spec fn is_phony(line: Seq<char>) -> bool {
    let head = ".PHONY"@;
    head.is_prefix_of(line) && {
        let rest = line.skip(head.len() as int);
        let colon = run_len(rest, CharClass::Space) as int;
        colon + 1 < rest.len() && rest[colon] == ':'
    }
}

/// The name of the target that `line` declares and the text after its colon.
///
/// A target line is a name, then spaces or tabs if any, then a colon that no
/// `=` follows directly. The name begins with a letter or `_` and goes on
/// with letters, digits, `_`, `-` and `.`.
pub open spec fn target(line: Seq<char>) -> Option<(Seq<char>, Seq<char>)> {
    let n = run_len(line, CharClass::DottedName) as int;
    let colon = n + run_len(line.skip(n), CharClass::Blank);
    if line.len() > 0 && is_name_start(line[0]) && colon < line.len() && line[colon] == ':' && (
    colon + 1 == line.len() || line[colon + 1] != '=') {
        Some((line.take(n), line.skip(colon + 1)))
    } else {
        None
    }
}

/// Whether a target of this name defines no task: one that begins with `.`,
/// or a pattern rule, which holds `%`.
pub open spec fn is_special(name: Seq<char>) -> bool {
    (name.len() > 0 && name[0] == '.') || name.contains('%')
}

/// Whether the prerequisite `word` is kept as a dependency: not a variable
/// reference, which begins with `$`, and not a pattern, which holds `%`.
pub open spec fn is_dependency(word: Seq<char>) -> bool {
    !(word.len() > 0 && word[0] == '$') && !word.contains('%')
}

/// The dependencies that the text after a target's colon names.
pub open spec fn dependencies(rest: Seq<char>) -> Seq<Seq<char>> {
    select(words(rest), |w: Seq<char>| is_dependency(w))
}

/// What `line` is, read outside a recipe.
pub open spec fn line_kind(line: Seq<char>) -> LineKind {
    if is_phony(line) {
        LineKind::Inert
    } else if let Some(text) = comment(line) {
        LineKind::Comment(text)
    } else if let Some((name, rest)) = target(line) {
        if is_special(name) {
            LineKind::Inert
        } else {
            LineKind::Header(name, dependencies(rest))
        }
    } else {
        LineKind::Other
    }
}

/// Whether `line` belongs to a recipe: it begins with a tab.
pub open spec fn is_command_line(line: Seq<char>) -> bool {
    line.len() > 0 && line[0] == '\t'
}

/// The text of a recipe line: the line without its leading tabs, one `@`
/// (run quietly) and then one `-` (ignore errors).
pub open spec fn command_text(line: Seq<char>) -> Seq<char> {
    strip(strip(line.skip(run_len(line, CharClass::Tab) as int), '@'), '-')
}

/// The command that a recipe line gives: its text, unless that is blank.
pub open spec fn command_of(line: Seq<char>) -> Option<Seq<char>> {
    if is_blank(command_text(line)) {
        None
    } else {
        Some(command_text(line))
    }
}

/// The tasks that a Makefile of this text defines.
pub open spec fn parsed(content: Seq<char>) -> Map<Seq<char>, crate::config::TaskView> {
    tasks_of(Dialect::Make, lines(content))
}

/// The text of each recipe line of `body`.
pub open spec fn command_texts(body: Seq<Seq<char>>) -> Seq<Seq<char>> {
    Seq::new(body.len(), |i: int| command_text(body[i]))
}

/// A target followed by recipe lines defines a task whose command is the
/// text of those lines, in order, joined by `" && "`.
pub proof fn lemma_recipe_joined(
    before: Seq<Seq<char>>,
    header: Seq<char>,
    body: Seq<Seq<char>>,
)
    requires
        line_kind(header) is Header,
        forall|i: int|
            0 <= i < body.len() ==> is_command_line(#[trigger] body[i]) && !is_blank(
                command_text(body[i]),
            ),
    ensures
        tasks_of(Dialect::Make, before + seq![header] + body).contains_key(
            line_kind(header)->Header_0,
        ),
        tasks_of(Dialect::Make, before + seq![header] + body)[line_kind(header)->Header_0].run
            == join(command_texts(body), " && "@),
{
    lemma_collected_all(body);
    lemma_task_defined(Dialect::Make, before, header, body);
}

/// Recipe lines that all have text give that text, line by line.
proof fn lemma_collected_all(body: Seq<Seq<char>>)
    requires
        forall|i: int|
            0 <= i < body.len() ==> is_command_line(#[trigger] body[i]) && !is_blank(
                command_text(body[i]),
            ),
    ensures
        collected(Dialect::Make, body) == command_texts(body),
    decreases body.len(),
{
    if body.len() == 0 {
        assert(command_texts(body) =~= Seq::<Seq<char>>::empty());
    } else {
        let init = body.drop_last();
        assert forall|i: int| 0 <= i < init.len() implies is_command_line(#[trigger] init[i])
            && !is_blank(command_text(init[i])) by {
            assert(init[i] == body[i]);
        }
        lemma_collected_all(init);
        assert(body.last() == body[body.len() - 1]);
        assert(command_texts(body) =~= command_texts(init).push(command_text(body.last())));
    }
}

/// No task is named as a special target or a pattern rule is.
pub proof fn lemma_no_special_task(content: Seq<char>)
    ensures
        forall|name: Seq<char>| #[trigger] parsed(content).contains_key(name) ==> !is_special(name),
{
    lemma_names(Dialect::Make, lines(content));
}

/// Tests whether `line` declares phony targets.
pub fn match_phony(line: &Vec<char>) -> (yes: bool)
    ensures
        yes == is_phony(line@),
{
    let head = chars_of(".PHONY");
    if !starts_with(line, &head) {
        return false;
    }
    let colon = scan_run(line, head.len(), CharClass::Space);
    proof {
        let rest = line@.skip(head.len() as int);
        let at = run_len(rest, CharClass::Space) as int;
        if at < rest.len() {
            assert(rest[at] == line@[colon as int]);
        }
    }
    colon < line.len() && line[colon] == ':' && colon + 1 < line.len()
}

/// The name of the target that `line` declares and the text after its colon,
/// if it declares one.
pub fn match_target(line: &Vec<char>) -> (out: Option<(Vec<char>, Vec<char>)>)
    ensures
        match out {
            Some((name, rest)) => target(line@) == Some((name@, rest@)),
            None => target(line@) is None,
        },
{
    if line.len() == 0 {
        return None;
    }
    if !name_start(line[0]) {
        return None;
    }
    assert(line@.skip(0) =~= line@);
    let n = scan_run(line, 0, CharClass::DottedName);
    let colon = scan_run(line, n, CharClass::Blank);
    if colon < line.len() && line[colon] == ':' && (colon + 1 == line.len() || line[colon + 1]
        != '=') {
        let name = slice(line, 0, n);
        let rest = slice(line, colon + 1, line.len());
        proof {
            assert(name@ =~= line@.take(n as int));
            assert(rest@ =~= line@.skip(colon + 1));
        }
        Some((name, rest))
    } else {
        None
    }
}

/// The dependencies that the text after a target's colon names.
pub fn read_dependencies(rest: &Vec<char>) -> (out: Vec<Vec<char>>)
    ensures
        views(out@) == dependencies(rest@),
{
    let all = split_words(rest);
    let mut out: Vec<Vec<char>> = Vec::new();
    let ghost keep = |w: Seq<char>| is_dependency(w);
    let ghost ws = views(all@);
    assert(ws.take(0) =~= Seq::<Seq<char>>::empty());
    assert(views(out@) =~= Seq::<Seq<char>>::empty());
    let mut i: usize = 0;
    while i < all.len()
        invariant
            i <= all.len(),
            ws == views(all@),
            keep == (|w: Seq<char>| is_dependency(w)),
            views(out@) == select(ws.take(i as int), keep),
        decreases all.len() - i,
    {
        let word = &all[i];
        let ghost before = views(out@);
        proof {
            let now = ws.take(i + 1);
            assert(now.drop_last() =~= ws.take(i as int));
            assert(now.last() == word@);
        }
        if !(word.len() > 0 && word[0] == '$') && !has_char(word, '%') {
            out.push(slice(word, 0, word.len()));
            assert(word@.subrange(0, word.len() as int) =~= word@);
            assert(views(out@) =~= before.push(word@));
        }
        i += 1;
    }
    assert(ws.take(all.len() as int) =~= ws);
    out
}

/// What `line` is, read outside a recipe.
pub fn classify(line: &Vec<char>) -> (out: Line)
    ensures
        out@ == line_kind(line@),
{
    if match_phony(line) {
        return Line::Inert;
    }
    if let Some(text) = match_comment(line) {
        return Line::Comment(text);
    }
    if let Some((name, rest)) = match_target(line) {
        if (name.len() > 0 && name[0] == '.') || has_char(&name, '%') {
            return Line::Inert;
        }
        let deps = read_dependencies(&rest);
        return Line::Header(name, deps);
    }
    Line::Other
}

/// Tests whether `line` belongs to a recipe.
pub fn command_line(line: &Vec<char>) -> (yes: bool)
    ensures
        yes == is_command_line(line@),
{
    line.len() > 0 && line[0] == '\t'
}

/// The command that a recipe line gives, if it gives one.
pub fn read_command(line: &Vec<char>) -> (out: Option<Vec<char>>)
    ensures
        match out {
            Some(cmd) => command_of(line@) == Some(cmd@),
            None => command_of(line@) is None,
        },
{
    assert(line@.skip(0) =~= line@);
    let mut from = scan_run(line, 0, CharClass::Tab);
    let ghost a = line@.skip(from as int);
    if from < line.len() && line[from] == '@' {
        assert(a.skip(1) =~= line@.skip(from + 1));
        from += 1;
    }
    let ghost b = line@.skip(from as int);
    assert(b == strip(a, '@'));
    if from < line.len() && line[from] == '-' {
        assert(b.skip(1) =~= line@.skip(from + 1));
        from += 1;
    }
    let cmd = slice(line, from, line.len());
    assert(cmd@ =~= line@.skip(from as int));
    assert(cmd@ == strip(b, '-'));
    if blank(&cmd) {
        None
    } else {
        Some(cmd)
    }
}

/// Reads the tasks of a Makefile. Lines that are not recognized define
/// nothing, so every text is accepted.
pub fn parse(content: &str) -> (out: Result<Kylefile, Error>)
    ensures
        out matches Ok(file) && file.name@ == Seq::<char>::empty() && file.includes@
            == IncludesView::Absent && file.tasks@ == parsed(content@),
        out matches Ok(file) && forall|name: Seq<char>| #[trigger]
            file.tasks@.contains_key(name) ==> !is_special(name),
{
    let text = chars_of(content);
    let all = split_lines(&text);
    let tasks = read_tasks(Dialect::Make, &all);
    proof {
        lemma_no_special_task(content@);
        assert forall|name: Seq<char>| #[trigger] tasks@.contains_key(name) implies !is_special(
            name,
        ) by {
            assert(parsed(content@).contains_key(name));
        }
    }
    Ok(Kylefile { name: String::new(), includes: Includes::Absent, tasks })
}

} // verus!
