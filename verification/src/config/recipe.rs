//! The line scanner that Makefiles and justfiles share.
//!
//! Both formats are read line by line. A comment sets the description that
//! the next header takes; a header opens a task; the indented lines under it
//! are its commands. The formats differ in how a line is recognized, which
//! the `Dialect` decides.

use crate::config::kylefile::{strings_of, Task, TaskMap, TaskView};
use crate::text::{
    blank, is_blank, is_space, join, join_with, slice, string_of, trim, trimmed, views,
};
use vstd::prelude::*;

verus! {

/// The format whose lines are scanned.
#[derive(Clone, Copy, Debug)]
pub enum Dialect {
    Make,
    Just,
}

/// What a line outside a task's commands is.
pub enum LineKind {
    /// A declaration that defines no task: it only clears the description.
    Inert,
    /// A comment with its text, trimmed.
    Comment(Seq<char>),
    /// The header of a task: its name and its dependencies.
    Header(Seq<char>, Seq<Seq<char>>),
    /// Anything else.
    Other,
}

/// A line outside a task's commands, as it was recognized.
#[derive(Debug)]
pub enum Line {
    Inert,
    Comment(Vec<char>),
    Header(Vec<char>, Vec<Vec<char>>),
    Other,
}

impl View for Line {
    type V = LineKind;

    open spec fn view(&self) -> LineKind {
        match self {
            Line::Inert => LineKind::Inert,
            Line::Comment(text) => LineKind::Comment(text@),
            Line::Header(name, deps) => LineKind::Header(name@, views(deps@)),
            Line::Other => LineKind::Other,
        }
    }
}

/// Whether `c` may begin a name: an ASCII letter or `_`.
pub open spec fn is_name_start(c: char) -> bool {
    'a' <= c <= 'z' || 'A' <= c <= 'Z' || c == '_'
}

/// The text of the comment that `line` is, trimmed, if it begins with `#`.
pub open spec fn comment(line: Seq<char>) -> Option<Seq<char>> {
    if line.len() > 0 && line[0] == '#' {
        Some(trim(line.skip(1)))
    } else {
        None
    }
}

/// `s` without its first character, if that is `c`.
pub open spec fn strip(s: Seq<char>, c: char) -> Seq<char> {
    if s.len() > 0 && s[0] == c {
        s.skip(1)
    } else {
        s
    }
}

/// What `line` is in the dialect `d`.
pub open spec fn kind(d: Dialect, line: Seq<char>) -> LineKind {
    match d {
        Dialect::Make => crate::config::makefile::line_kind(line),
        Dialect::Just => crate::config::justfile::line_kind(line),
    }
}

/// Whether `line` is indented as a command line of the dialect `d` is.
pub open spec fn indented(d: Dialect, line: Seq<char>) -> bool {
    match d {
        Dialect::Make => crate::config::makefile::is_command_line(line),
        Dialect::Just => crate::config::justfile::is_command_line(line),
    }
}

/// The command that the indented `line` adds to its task, if it adds one.
pub open spec fn command(d: Dialect, line: Seq<char>) -> Option<Seq<char>> {
    match d {
        Dialect::Make => crate::config::makefile::command_of(line),
        Dialect::Just => crate::config::justfile::command_of(line),
    }
}

/// The words of `ws` that `keep` accepts, in order.
pub open spec fn select(ws: Seq<Seq<char>>, keep: spec_fn(Seq<char>) -> bool) -> Seq<Seq<char>>
    decreases ws.len(),
{
    if ws.len() == 0 {
        Seq::empty()
    } else if keep(ws.last()) {
        select(ws.drop_last(), keep).push(ws.last())
    } else {
        select(ws.drop_last(), keep)
    }
}

/// A task whose header was read and whose commands are being collected.
pub struct OpenTask {
    pub name: Seq<char>,
    pub desc: Seq<char>,
    pub deps: Seq<Seq<char>>,
    pub cmds: Seq<Seq<char>>,
}

/// The scanner's state between two lines.
pub struct Scan {
    /// The description that the next header takes.
    pub pending: Option<Seq<char>>,
    /// The task whose commands are being collected.
    pub open: Option<OpenTask>,
    /// The tasks read so far.
    pub tasks: Map<Seq<char>, TaskView>,
}

/// The state before the first line.
pub open spec fn start() -> Scan {
    Scan { pending: None, open: None, tasks: Map::empty() }
}

/// The task that the collected commands make: they are joined by `" && "`.
pub open spec fn finished(o: OpenTask) -> TaskView {
    TaskView { desc: o.desc, run: join(o.cmds, " && "@), deps: o.deps }
}

/// `s` with its open task, if any, put among the tasks.
pub open spec fn close(s: Scan) -> Scan {
    match s.open {
        Some(o) => Scan { pending: s.pending, open: None, tasks: s.tasks.insert(o.name, finished(o)) },
        None => s,
    }
}

/// The state after `line`, read while no task is open.
pub open spec fn top(d: Dialect, s: Scan, line: Seq<char>) -> Scan {
    match kind(d, line) {
        LineKind::Inert => Scan { pending: None, ..s },
        LineKind::Comment(text) => if text.len() > 0 {
            Scan { pending: Some(text), ..s }
        } else {
            s
        },
        LineKind::Header(name, deps) => Scan {
            pending: None,
            open: Some(
                OpenTask {
                    name,
                    desc: description(s.pending),
                    deps,
                    cmds: Seq::empty(),
                },
            ),
            tasks: s.tasks,
        },
        LineKind::Other => if indented(d, line) && !is_blank(line) {
            s
        } else {
            Scan { pending: None, ..s }
        },
    }
}

/// The state after `line`. Under an open task an indented line is a command
/// line and a blank line is passed over; any other line ends the task and is
/// then read as a line outside it.
pub open spec fn step(d: Dialect, s: Scan, line: Seq<char>) -> Scan {
    match s.open {
        Some(o) => if indented(d, line) {
            match command(d, line) {
                Some(cmd) => Scan { open: Some(OpenTask { cmds: o.cmds.push(cmd), ..o }), ..s },
                None => s,
            }
        } else if is_blank(line) {
            s
        } else {
            top(d, close(s), line)
        },
        None => top(d, s, line),
    }
}

/// The state that `lines` lead to from the state `s`.
pub open spec fn scan_from(d: Dialect, s: Scan, lines: Seq<Seq<char>>) -> Scan
    decreases lines.len(),
{
    if lines.len() == 0 {
        s
    } else {
        step(d, scan_from(d, s, lines.drop_last()), lines.last())
    }
}

/// The state after all of `lines`.
pub open spec fn scan(d: Dialect, lines: Seq<Seq<char>>) -> Scan {
    scan_from(d, start(), lines)
}

/// The description that a header takes from the state's pending comment.
pub open spec fn description(pending: Option<Seq<char>>) -> Seq<char> {
    match pending {
        Some(text) => text,
        None => Seq::empty(),
    }
}

/// The commands that the lines under a header give, in order.
pub open spec fn collected(d: Dialect, body: Seq<Seq<char>>) -> Seq<Seq<char>>
    decreases body.len(),
{
    if body.len() == 0 {
        Seq::empty()
    } else if indented(d, body.last()) && command(d, body.last()) is Some {
        collected(d, body.drop_last()).push(command(d, body.last())->0)
    } else {
        collected(d, body.drop_last())
    }
}

/// Whether a header may bear this name.
pub open spec fn is_task_name(d: Dialect, name: Seq<char>) -> bool {
    match d {
        Dialect::Make => !crate::config::makefile::is_special(name),
        Dialect::Just => !crate::config::justfile::is_private(name),
    }
}

/// Whether `line`, read outside a task's commands, clears the pending
/// description: a declaration, a blank line, or a line that is neither
/// recognized nor indented.
pub open spec fn clears(d: Dialect, line: Seq<char>) -> bool {
    kind(d, line) is Inert || (kind(d, line) is Other && (is_blank(line) || !indented(d, line)))
}

/// The tasks that `lines` define in the dialect `d`.
pub open spec fn tasks_of(d: Dialect, lines: Seq<Seq<char>>) -> Map<Seq<char>, TaskView> {
    close(scan(d, lines)).tasks
}

/// A line that is recognized is neither blank nor indented, and a header's
/// name is one that a task may bear.
pub proof fn lemma_recognized(d: Dialect, line: Seq<char>)
    ensures
        !(kind(d, line) is Other) ==> !indented(d, line) && !is_blank(line),
        kind(d, line) matches LineKind::Header(name, _) ==> is_task_name(d, name),
{
    reveal_strlit(".PHONY");
    reveal_strlit("set");
    reveal_strlit("alias");
    reveal_strlit("    ");
    if !(kind(d, line) is Other) {
        assert(line.len() > 0 && (line[0] == '.' || line[0] == '#' || line[0] == 's' || line[0]
            == 'a' || is_name_start(line[0]))) by {
            if ".PHONY"@.is_prefix_of(line) {
                assert(line.subrange(0, 6)[0] == line[0]);
            }
            if "set"@.is_prefix_of(line) {
                assert(line.subrange(0, 3)[0] == line[0]);
            }
            if "alias"@.is_prefix_of(line) {
                assert(line.subrange(0, 5)[0] == line[0]);
            }
        }
        assert(!is_space(line[0]));
        if "    "@.is_prefix_of(line) {
            assert(line.subrange(0, 4)[0] == line[0]);
        }
    }
}

/// Reading one line is one step.
pub proof fn lemma_scan_one(d: Dialect, s: Scan, line: Seq<char>)
    ensures
        scan_from(d, s, seq![line]) == step(d, s, line),
{
    assert(seq![line].drop_last() =~= Seq::<Seq<char>>::empty());
    assert(seq![line].last() == line);
    assert(scan_from(d, s, Seq::<Seq<char>>::empty()) == s);
}

/// Reading `a` and then `b` is reading them as one.
pub proof fn lemma_scan_from_split(d: Dialect, s: Scan, a: Seq<Seq<char>>, b: Seq<Seq<char>>)
    ensures
        scan_from(d, s, a + b) == scan_from(d, scan_from(d, s, a), b),
    decreases b.len(),
{
    if b.len() == 0 {
        assert(a + b =~= a);
    } else {
        assert((a + b).drop_last() =~= a + b.drop_last());
        assert((a + b).last() == b.last());
        lemma_scan_from_split(d, s, a, b.drop_last());
    }
}

/// A header ends the task before it and opens its own, which takes the
/// pending description.
pub proof fn lemma_header_opens(d: Dialect, s: Scan, line: Seq<char>)
    requires
        kind(d, line) is Header,
    ensures
        step(d, s, line) == (Scan {
            pending: None,
            open: Some(
                OpenTask {
                    name: kind(d, line)->Header_0,
                    desc: description(s.pending),
                    deps: kind(d, line)->Header_1,
                    cmds: Seq::empty(),
                },
            ),
            tasks: close(s).tasks,
        }),
{
    lemma_recognized(d, line);
}

/// Under an open task, lines that are indented or blank only add their
/// commands to it.
pub proof fn lemma_body_collects(d: Dialect, s: Scan, body: Seq<Seq<char>>)
    requires
        s.open is Some,
        forall|i: int| 0 <= i < body.len() ==> indented(d, #[trigger] body[i]) || is_blank(body[i]),
    ensures
        scan_from(d, s, body) == (Scan {
            open: Some(OpenTask { cmds: s.open->0.cmds + collected(d, body), ..s.open->0 }),
            ..s
        }),
    decreases body.len(),
{
    let o = s.open->0;
    if body.len() == 0 {
        assert(o.cmds + collected(d, body) =~= o.cmds);
    } else {
        let init = body.drop_last();
        assert forall|i: int| 0 <= i < init.len() implies indented(d, #[trigger] init[i])
            || is_blank(init[i]) by {
            assert(init[i] == body[i]);
        }
        lemma_body_collects(d, s, init);
        let line = body.last();
        assert(line == body[body.len() - 1]);
        if indented(d, line) && command(d, line) is Some {
            assert(o.cmds + collected(d, body) =~= (o.cmds + collected(d, init)).push(
                command(d, line)->0,
            ));
        }
    }
}

/// A header and the lines under it add one task to those defined before
/// them: it has the header's name and dependencies, the description that
/// was pending, and as its command the commands of those lines, in order,
/// joined by `" && "`.
pub proof fn lemma_task_defined(
    d: Dialect,
    before: Seq<Seq<char>>,
    header: Seq<char>,
    body: Seq<Seq<char>>,
)
    requires
        kind(d, header) is Header,
        forall|i: int| 0 <= i < body.len() ==> indented(d, #[trigger] body[i]) || is_blank(body[i]),
    ensures
        tasks_of(d, before + seq![header] + body) == tasks_of(d, before).insert(
            kind(d, header)->Header_0,
            TaskView {
                desc: description(scan(d, before).pending),
                run: join(collected(d, body), " && "@),
                deps: kind(d, header)->Header_1,
            },
        ),
{
    let s = scan(d, before);
    lemma_scan_from_split(d, start(), before + seq![header], body);
    lemma_scan_from_split(d, start(), before, seq![header]);
    lemma_scan_one(d, s, header);
    lemma_header_opens(d, s, header);
    lemma_body_collects(d, step(d, s, header), body);
    assert(Seq::<Seq<char>>::empty() + collected(d, body) =~= collected(d, body));
}

/// A comment directly before a header is the description of the header's
/// task.
pub proof fn lemma_comment_describes(
    d: Dialect,
    before: Seq<Seq<char>>,
    note: Seq<char>,
    header: Seq<char>,
    body: Seq<Seq<char>>,
)
    requires
        kind(d, note) matches LineKind::Comment(text) && text.len() > 0,
        kind(d, header) is Header,
        forall|i: int| 0 <= i < body.len() ==> indented(d, #[trigger] body[i]) || is_blank(body[i]),
    ensures
        tasks_of(d, before + seq![note, header] + body).contains_key(kind(d, header)->Header_0),
        tasks_of(d, before + seq![note, header] + body)[kind(d, header)->Header_0].desc == kind(
            d,
            note,
        )->Comment_0,
{
    let lead = before + seq![note];
    assert(before + seq![note, header] + body =~= lead + seq![header] + body);
    lemma_scan_from_split(d, start(), before, seq![note]);
    lemma_scan_one(d, scan(d, before), note);
    lemma_recognized(d, note);
    lemma_task_defined(d, lead, header, body);
}

/// A line between a comment and a header that clears the pending
/// description leaves the header's task without one.
pub proof fn lemma_gap_clears(
    d: Dialect,
    before: Seq<Seq<char>>,
    note: Seq<char>,
    gap: Seq<char>,
    header: Seq<char>,
    body: Seq<Seq<char>>,
)
    requires
        kind(d, note) is Comment,
        clears(d, gap),
        kind(d, header) is Header,
        forall|i: int| 0 <= i < body.len() ==> indented(d, #[trigger] body[i]) || is_blank(body[i]),
    ensures
        tasks_of(d, before + seq![note, gap, header] + body).contains_key(
            kind(d, header)->Header_0,
        ),
        tasks_of(d, before + seq![note, gap, header] + body)[kind(d, header)->Header_0].desc
            == Seq::<char>::empty(),
{
    let lead = before + seq![note] + seq![gap];
    assert(before + seq![note, gap, header] + body =~= lead + seq![header] + body);
    lemma_scan_from_split(d, start(), before + seq![note], seq![gap]);
    lemma_scan_from_split(d, start(), before, seq![note]);
    lemma_scan_one(d, scan(d, before), note);
    let s = scan(d, before + seq![note]);
    lemma_scan_one(d, s, gap);
    lemma_recognized(d, note);
    lemma_recognized(d, gap);
    assert(s.open is None);
    assert(scan(d, lead).pending is None);
    lemma_task_defined(d, lead, header, body);
}

/// Every task that is read, and the one being read, has a name that a task
/// may bear.
pub proof fn lemma_names(d: Dialect, lines: Seq<Seq<char>>)
    ensures
        forall|name: Seq<char>| #[trigger]
            scan(d, lines).tasks.contains_key(name) ==> is_task_name(d, name),
        scan(d, lines).open matches Some(o) ==> is_task_name(d, o.name),
        forall|name: Seq<char>| #[trigger]
            tasks_of(d, lines).contains_key(name) ==> is_task_name(d, name),
    decreases lines.len(),
{
    if lines.len() > 0 {
        lemma_names(d, lines.drop_last());
        lemma_recognized(d, lines.last());
    }
}

/// The text of the comment that `line` is, if it is one.
pub fn match_comment(line: &Vec<char>) -> (out: Option<Vec<char>>)
    ensures
        match out {
            Some(text) => comment(line@) == Some(text@),
            None => comment(line@) is None,
        },
{
    if line.len() > 0 && line[0] == '#' {
        let rest = slice(line, 1, line.len());
        assert(rest@ =~= line@.skip(1));
        Some(trimmed(&rest))
    } else {
        None
    }
}

/// Tests whether `c` may begin a name.
pub fn name_start(c: char) -> (yes: bool)
    ensures
        yes == is_name_start(c),
{
    ('a' <= c && c <= 'z') || ('A' <= c && c <= 'Z') || c == '_'
}

/// What `line` is in the dialect `d`.
pub fn classify(d: Dialect, line: &Vec<char>) -> (out: Line)
    ensures
        out@ == kind(d, line@),
{
    match d {
        Dialect::Make => crate::config::makefile::classify(line),
        Dialect::Just => crate::config::justfile::classify(line),
    }
}

/// Whether `line` is indented as a command line of the dialect `d` is.
pub fn is_indented(d: Dialect, line: &Vec<char>) -> (yes: bool)
    ensures
        yes == indented(d, line@),
{
    match d {
        Dialect::Make => crate::config::makefile::command_line(line),
        Dialect::Just => crate::config::justfile::command_line(line),
    }
}

/// The command that the indented `line` adds to its task, if it adds one.
pub fn read_command(d: Dialect, line: &Vec<char>) -> (out: Option<Vec<char>>)
    ensures
        match out {
            Some(cmd) => command(d, line@) == Some(cmd@),
            None => command(d, line@) is None,
        },
{
    match d {
        Dialect::Make => crate::config::makefile::read_command(line),
        Dialect::Just => crate::config::justfile::read_command(line),
    }
}

/// What the scanner holds while it runs.
struct Reader {
    pending: Option<Vec<char>>,
    open: bool,
    name: Vec<char>,
    desc: Vec<char>,
    deps: Vec<Vec<char>>,
    cmds: Vec<Vec<char>>,
    tasks: TaskMap,
}

impl View for Reader {
    type V = Scan;

    closed spec fn view(&self) -> Scan {
        Scan {
            pending: match self.pending {
                Some(text) => Some(text@),
                None => None,
            },
            open: if self.open {
                Some(
                    OpenTask {
                        name: self.name@,
                        desc: self.desc@,
                        deps: views(self.deps@),
                        cmds: views(self.cmds@),
                    },
                )
            } else {
                None
            },
            tasks: self.tasks@,
        }
    }
}

impl Reader {
    /// Puts the open task, if any, among the tasks.
    fn close(&mut self)
        ensures
            final(self)@ == close(old(self)@),
    {
        if self.open {
            let sep = crate::text::chars_of(" && ");
            let run = join_with(&self.cmds, &sep);
            let task = Task {
                desc: string_of(&self.desc),
                run: string_of(&run),
                deps: strings_of(&self.deps),
            };
            self.tasks.insert(string_of(&self.name), task);
            self.open = false;
        }
    }

    /// Reads `line` while no task is open.
    fn top(&mut self, d: Dialect, line: &Vec<char>)
        requires
            old(self)@.open is None,
        ensures
            final(self)@ == top(d, old(self)@, line@),
    {
        match classify(d, line) {
            Line::Inert => {
                self.pending = None;
            },
            Line::Comment(text) => {
                if text.len() > 0 {
                    self.pending = Some(text);
                }
            },
            Line::Header(name, deps) => {
                let mut pending: Option<Vec<char>> = None;
                core::mem::swap(&mut self.pending, &mut pending);
                self.desc = match pending {
                    Some(text) => text,
                    None => Vec::new(),
                };
                self.name = name;
                self.deps = deps;
                self.cmds = Vec::new();
                self.open = true;
                assert(views(self.cmds@) =~= Seq::<Seq<char>>::empty());
            },
            Line::Other => {
                if !(is_indented(d, line) && !blank(line)) {
                    self.pending = None;
                }
            },
        }
    }

    /// Reads `line`.
    fn step(&mut self, d: Dialect, line: &Vec<char>)
        ensures
            final(self)@ == step(d, old(self)@, line@),
    {
        if self.open && is_indented(d, line) {
            let ghost before = views(self.cmds@);
            match read_command(d, line) {
                Some(cmd) => {
                    self.cmds.push(cmd);
                    assert(views(self.cmds@) =~= before.push(cmd@));
                },
                None => {},
            }
        } else if self.open && blank(line) {
        } else {
            self.close();
            self.top(d, line);
        }
    }
}

/// Reads the tasks that `lines` define in the dialect `d`.
pub fn read_tasks(d: Dialect, lines: &Vec<Vec<char>>) -> (tasks: TaskMap)
    ensures
        tasks@ == tasks_of(d, views(lines@)),
{
    let mut reader = Reader {
        pending: None,
        open: false,
        name: Vec::new(),
        desc: Vec::new(),
        deps: Vec::new(),
        cmds: Vec::new(),
        tasks: TaskMap::new(),
    };
    let ghost all = views(lines@);
    assert(all.take(0) =~= Seq::<Seq<char>>::empty());
    let mut i: usize = 0;
    while i < lines.len()
        invariant
            i <= lines.len(),
            all == views(lines@),
            reader@ == scan(d, all.take(i as int)),
        decreases lines.len() - i,
    {
        reader.step(d, &lines[i]);
        proof {
            let now = all.take(i + 1);
            assert(now.drop_last() =~= all.take(i as int));
            assert(now.last() == lines@[i as int]@);
        }
        i += 1;
    }
    assert(all.take(lines.len() as int) =~= all);
    reader.close();
    reader.tasks
}

} // verus!
