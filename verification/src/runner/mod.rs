//! The execution engine.
//!
//! A run executes a task after the tasks it depends on, depth first, and no
//! command twice. The engine decides and its driver acts: every call returns
//! the next `Action`, and the driver reports how the action went with the
//! call that follows.

pub mod model;

use crate::config::kylefile::{texts, Kylefile, Task};
use crate::config::loader::Source;
use crate::namespace::{parse_task_ref, resolve_namespace, resolved};
use crate::runner::model::{
    after_command, after_namespace, begun, command_line, left, lemma_orderly, listing, orderly,
    pending_from, reason, report, resumed, skipped, wrapped, Failure, FrameView, Report,
    RunnerView, Step,
};
use crate::text::{append, chars_of, decimal_of, join_with, prefixed, string_of, views};
use std::path::PathBuf;
use vstd::hash_set::StringHashSet;
use vstd::prelude::*;

verus! {

/// Why a run failed.
#[derive(Debug)]
#[allow(inconsistent_fields)]
pub enum Error {
    /// No task has this name.
    TaskNotFound(String),
    /// The namespace's directory does not exist.
    NamespaceNotFound(String),
    /// The namespace's task definitions could not be loaded.
    NamespaceLoadFailed { namespace: String, source: crate::config::Error },
    /// A dependency failed; `source` says how.
    DependencyFailed { dep: String, source: Box<Error> },
    /// The task's command could not be started or did not succeed.
    ExecutionFailed { task: String, reason: String },
}

impl View for Error {
    type V = Failure;

    open spec fn view(&self) -> Failure
        decreases self,
    {
        match self {
            Error::TaskNotFound(name) => Failure::TaskNotFound(name@),
            Error::NamespaceNotFound(name) => Failure::NamespaceNotFound(name@),
            Error::NamespaceLoadFailed { namespace, source } => Failure::NamespaceLoadFailed {
                namespace: namespace@,
                fault: source@,
            },
            Error::DependencyFailed { dep, source } => Failure::DependencyFailed {
                dep: dep@,
                cause: Box::new((**source).view()),
            },
            Error::ExecutionFailed { task, reason } => Failure::ExecutionFailed {
                task: task@,
                reason: reason@,
            },
        }
    }
}

/// `head`, then `name`, then `middle`, then `tail`.
fn framed(head: &str, name: &str, middle: &str, tail: &str) -> (out: String)
    ensures
        out@ == head@ + name@ + middle@ + tail@,
{
    let mut text = chars_of(head);
    append(&mut text, &chars_of(name));
    append(&mut text, &chars_of(middle));
    append(&mut text, &chars_of(tail));
    string_of(&text)
}

impl Error {
    /// What the error says to the user.
    pub fn message(&self) -> (out: String)
        ensures
            out@ == report(self@),
        decreases self,
    {
        match self {
            Error::TaskNotFound(name) => prefixed("task not found: ", name.as_str()),
            Error::NamespaceNotFound(name) => prefixed(
                "namespace not found: ",
                name.as_str(),
            ),
            Error::NamespaceLoadFailed { namespace, source } => framed(
                "failed to load namespace '",
                namespace.as_str(),
                "': ",
                source.message().as_str(),
            ),
            Error::DependencyFailed { dep, source } => framed(
                "dependency '",
                dep.as_str(),
                "' failed: ",
                source.message().as_str(),
            ),
            Error::ExecutionFailed { task, reason } => framed(
                "task '",
                task.as_str(),
                "' failed: ",
                reason.as_str(),
            ),
        }
    }
}

/// How a task's command went.
#[derive(Debug)]
pub enum Outcome {
    /// The command ran and succeeded.
    Success,
    /// The command ran and did not succeed; its exit code, if it has one.
    Failed(Option<i32>),
    /// The command could not be started; the text says why.
    NotStarted(String),
}

/// How the visit to a namespace went.
#[derive(Debug)]
pub enum Visit {
    /// The task ran there and succeeded.
    Completed,
    /// The namespace's directory does not exist.
    Missing,
    /// The namespace's task definitions could not be loaded.
    Unreadable(crate::config::Error),
    /// The run there failed.
    Failed(Error),
}

/// What the driver is to do next.
#[derive(Debug)]
pub enum Action {
    /// Announce `task` and run `command` through the shell, in the working
    /// directory; then report with `command_ended`.
    Execute { task: String, command: String },
    /// Run `task` in the namespace whose directory is `dir`, with an engine
    /// of its own and no extra arguments; then report with `namespace_left`.
    Enter { namespace: String, task: String, dir: PathBuf },
    /// Nothing; call `resume`.
    Again,
    /// The run is over.
    Finish(Result<(), Error>),
}

impl View for Action {
    type V = Step;

    open spec fn view(&self) -> Step {
        match self {
            Action::Execute { task, command } => Step::Execute { task: task@, command: command@ },
            Action::Enter { namespace, task, dir } => Step::Enter {
                namespace: namespace@,
                task: task@,
            },
            Action::Again => Step::Again,
            Action::Finish(Ok(_)) => Step::Finish(Ok(())),
            Action::Finish(Err(e)) => Step::Finish(Err(e@)),
        }
    }
}

/// What the engine waits for.
#[derive(Debug, Clone, Copy)]
pub enum Phase {
    /// No run is under way.
    Idle,
    /// The engine has work to do: `resume` is due.
    Ready,
    /// A command runs: `command_ended` is due.
    Command,
    /// A namespace is visited: `namespace_left` is due.
    Namespace,
}

/// A task that a run has reached and not yet left.
#[derive(Debug)]
struct Frame {
    name: String,
    task: Task,
    next: usize,
    args: Vec<String>,
}

impl View for Frame {
    type V = FrameView;

    closed spec fn view(&self) -> FrameView {
        FrameView {
            name: self.name@,
            run: self.task.run@,
            deps: texts(self.task.deps@),
            next: self.next as int,
            args: texts(self.args@),
        }
    }
}

/// What each frame of `v` stands for.
spec fn frames(v: Seq<Frame>) -> Seq<FrameView> {
    Seq::new(v.len(), |i: int| v[i]@)
}

/// Runs the tasks of one project.
pub struct Runner {
    kylefile: Kylefile,
    working_dir: PathBuf,
    root_dir: PathBuf,
    executed: StringHashSet,
    stack: Vec<Frame>,
    phase: Phase,
}

impl View for Runner {
    type V = RunnerView;

    closed spec fn view(&self) -> RunnerView {
        RunnerView {
            tasks: self.kylefile.tasks@,
            done: self.executed@,
            stack: frames(self.stack@),
            phase: self.phase,
        }
    }
}

/// Why the command failed, if it did.
pub open spec fn command_failure(outcome: Outcome) -> Option<Seq<char>> {
    match outcome {
        Outcome::Success => None,
        Outcome::Failed(code) => Some(reason(code)),
        Outcome::NotStarted(text) => Some(text@),
    }
}

/// Why the visit to the namespace `namespace` failed, if it did.
pub open spec fn visit_failure(namespace: Seq<char>, visit: Visit) -> Option<Failure> {
    match visit {
        Visit::Completed => None,
        Visit::Missing => Some(Failure::NamespaceNotFound(namespace)),
        Visit::Unreadable(e) => Some(Failure::NamespaceLoadFailed { namespace, fault: e@ }),
        Visit::Failed(e) => Some(e@),
    }
}

/// The namespace that the innermost task's dependency under way names.
pub open spec fn visited(s: RunnerView) -> Seq<char> {
    resolved(s.stack.last().deps[s.stack.last().next]).namespace->0
}

impl Runner {
    /// The task definitions that the engine was made with.
    pub closed spec fn file(&self) -> Kylefile {
        self.kylefile
    }

    /// The directory in which commands run and the one below which
    /// namespaces are looked for.
    pub closed spec fn dirs(&self) -> (PathBuf, PathBuf) {
        (self.working_dir, self.root_dir)
    }

    /// An engine for the tasks of `kylefile`. Commands run in `working_dir`;
    /// namespaces are looked for below `root_dir`. Nothing has completed.
    pub fn with_working_dir(kylefile: Kylefile, working_dir: PathBuf, root_dir: PathBuf) -> (out:
        Self)
        ensures
            out@ == (RunnerView {
                tasks: kylefile.tasks@,
                done: Set::empty(),
                stack: Seq::empty(),
                phase: Phase::Idle,
            }),
            out.file() == kylefile,
            out.dirs() == (working_dir, root_dir),
            orderly(out@),
    {
        let out = Runner {
            kylefile,
            working_dir,
            root_dir,
            executed: StringHashSet::new(),
            stack: Vec::new(),
            phase: Phase::Idle,
        };
        assert(out@.stack =~= Seq::<FrameView>::empty());
        out
    }

    /// The task definitions that the engine runs.
    pub fn kylefile(&self) -> (out: &Kylefile)
        ensures
            *out == self.file(),
            out.tasks@ == self@.tasks,
    {
        &self.kylefile
    }

    /// The format that the task definitions were read in, which the engine
    /// is not told.
    pub fn source(&self) -> (out: Option<Source>)
        ensures
            out is None,
    {
        None
    }

    /// What the engine waits for.
    pub fn phase(&self) -> (out: Phase)
        ensures
            out == self@.phase,
    {
        self.phase
    }

    /// The directory in which commands run.
    pub fn working_dir(&self) -> (out: &PathBuf)
        ensures
            *out == self.dirs().0,
    {
        &self.working_dir
    }

    /// The directory below which namespaces are looked for.
    pub fn root_dir(&self) -> (out: &PathBuf)
        ensures
            *out == self.dirs().1,
    {
        &self.root_dir
    }

    /// The lines that list the tasks, each with its description, in the
    /// order in which the task definitions name them.
    pub fn list_tasks(&self) -> (out: Vec<String>)
        ensures
            out@.len() == self.file().tasks.order().len(),
            forall|i: int|
                0 <= i < out@.len() ==> self@.tasks.contains_key(self.file().tasks.order()[i])
                    && (#[trigger] out@[i])@ == listing(
                    self.file().tasks.order()[i],
                    self@.tasks[self.file().tasks.order()[i]],
                ),
    {
        let names = self.kylefile.tasks.names();
        let ghost order = self.kylefile.tasks.order();
        let mut out: Vec<String> = Vec::new();
        let mut i: usize = 0;
        while i < names.len()
            invariant
                i <= names.len(),
                out.len() == i,
                texts(names@) == order,
                order == self.kylefile.tasks.order(),
                texts(names@).to_set() == self.kylefile.tasks@.dom(),
                forall|k: int|
                    0 <= k < i ==> self.kylefile.tasks@.contains_key(order[k]) && (
                    #[trigger] out@[k])@ == listing(order[k], self.kylefile.tasks@[order[k]]),
            decreases names.len() - i,
        {
            let name = &names[i];
            proof {
                assert(texts(names@)[i as int] == name@);
                assert(texts(names@).to_set().contains(texts(names@)[i as int]));
            }
            let mut line = chars_of("  ");
            append(&mut line, &chars_of(name.as_str()));
            match self.kylefile.tasks.get(name.as_str()) {
                Some(task) => {
                    if !task.desc.as_str().is_empty() {
                        append(&mut line, &chars_of(" - "));
                        append(&mut line, &chars_of(task.desc.as_str()));
                    }
                },
                None => {},
            }
            out.push(string_of(&line));
            i += 1;
        }
        out
    }

    /// Whether the key `key` has completed.
    pub fn has_completed(&self, key: &str) -> (yes: bool)
        ensures
            yes == self@.done.contains(key@),
    {
        self.executed.contains(key)
    }

    /// Whether the dependency `dep` of the task `owner` is passed over.
    fn passes_over(&self, owner: &str, dep: &str) -> (yes: bool)
        ensures
            yes == skipped(self@.done, owner@, dep@),
    {
        let r = parse_task_ref(dep);
        match r.namespace {
            Some(ns) => {
                if self.executed.contains(dep) {
                    true
                } else {
                    let key = key_of(ns.as_str(), r.task_name.as_str());
                    self.executed.contains(key.as_str())
                }
            },
            None => self.executed.contains(owner),
        }
    }

    /// Ends the run with the failure `e` of the dependency under way in the
    /// innermost task.
    fn unwind(&mut self, e: Error) -> (out: Error)
        requires
            forall|i: int|
                0 <= i < old(self)@.stack.len() ==> 0 <= (#[trigger] old(self)@.stack[i]).next
                    < old(self)@.stack[i].deps.len(),
        ensures
            out@ == wrapped(old(self)@.stack, e@),
            final(self)@ == (RunnerView {
                stack: Seq::empty(),
                phase: Phase::Idle,
                ..old(self)@
            }),
            final(self).file() == old(self).file(),
            final(self).dirs() == old(self).dirs(),
    {
        let mut err = e;
        while self.stack.len() > 0
            invariant
                self.kylefile == old(self).kylefile,
                self.working_dir == old(self).working_dir,
                self.root_dir == old(self).root_dir,
                self.executed == old(self).executed,
                wrapped(frames(self.stack@), err@) == wrapped(frames(old(self).stack@), e@),
                forall|i: int|
                    0 <= i < self.stack.len() ==> 0 <= (#[trigger] frames(self.stack@)[i]).next
                        < frames(self.stack@)[i].deps.len(),
            decreases self.stack.len(),
        {
            let ghost before = frames(self.stack@);
            let frame = self.stack.pop().unwrap();
            proof {
                assert(frames(self.stack@) =~= before.drop_last());
                assert(before.last() == frame@);
                assert(before[before.len() - 1].next < before[before.len() - 1].deps.len());
                assert forall|i: int| 0 <= i < self.stack.len() implies 0 <= (#[trigger] frames(
                    self.stack@,
                )[i]).next < frames(self.stack@)[i].deps.len() by {
                    assert(frames(self.stack@)[i] == before[i]);
                }
            }
            err = Error::DependencyFailed {
                dep: frame.task.deps[frame.next].clone(),
                source: Box::new(err),
            };
        }
        self.phase = Phase::Idle;
        assert(frames(self.stack@) =~= Seq::<FrameView>::empty());
        err
    }

    /// Leaves the innermost task, which was taken from the stack, with
    /// success.
    fn leave(&mut self, Ghost(top): Ghost<FrameView>) -> (action: Action)
        requires
            forall|i: int|
                0 <= i < old(self)@.stack.len() ==> 0 <= (#[trigger] old(self)@.stack[i]).next
                    < old(self)@.stack[i].deps.len(),
        ensures
            (final(self)@, action@) == left(
                RunnerView { stack: old(self)@.stack.push(top), ..old(self)@ },
            ),
            final(self).file() == old(self).file(),
            final(self).dirs() == old(self).dirs(),
    {
        let ghost rest = frames(self.stack@);
        assert(rest.push(top).drop_last() =~= rest);
        if self.stack.len() == 0 {
            self.phase = Phase::Idle;
            Action::Finish(Ok(()))
        } else {
            let mut parent = self.stack.pop().unwrap();
            proof {
                assert(frames(self.stack@) =~= rest.drop_last());
                assert(rest[rest.len() - 1] == parent@);
                assert(parent@.next < parent@.deps.len());
                assert(parent.next < parent.task.deps.len());
            }
            parent.next = parent.next + 1;
            self.stack.push(parent);
            self.phase = Phase::Ready;
            assert(frames(self.stack@) =~= rest.drop_last().push(parent@));
            Action::Again
        }
    }

    /// Goes on with the run. The innermost task passes over the dependencies
    /// that need no run; the action says what the first that does, or the
    /// task itself, asks for.
    pub fn resume(&mut self) -> (action: Action)
        requires
            orderly(old(self)@),
            old(self)@.phase is Ready,
        ensures
            (final(self)@, action@) == resumed(old(self)@),
            final(self).file() == old(self).file(),
            final(self).dirs() == old(self).dirs(),
            orderly(final(self)@),
    {
        let ghost s = self@;
        proof {
            lemma_orderly(s, Report::Resume);
        }
        let mut frame = self.stack.pop().unwrap();
        let ghost top = frame@;
        let ghost rest = frames(self.stack@);
        proof {
            assert(rest =~= s.stack.drop_last());
            assert(s.stack[s.stack.len() - 1] == top);
            assert forall|i: int| 0 <= i < rest.len() implies 0 <= (#[trigger] rest[i]).next
                < rest[i].deps.len() by {
                assert(rest[i] == s.stack[i]);
            }
        }
        let mut at: usize = frame.next;
        while at < frame.task.deps.len() && self.passes_over(
            frame.name.as_str(),
            frame.task.deps[at].as_str(),
        )
            invariant
                frame.next <= at <= frame.task.deps.len(),
                frame@ == top,
                self@ == (RunnerView { stack: rest, ..s }),
                pending_from(s.done, top.name, top.deps, top.next) == pending_from(
                    s.done,
                    top.name,
                    top.deps,
                    at as int,
                ),
            decreases frame.task.deps.len() - at,
        {
            at += 1;
        }
        frame.next = at;
        let ghost here = rest.push(frame@);
        if at < frame.task.deps.len() {
            let dep = frame.task.deps[at].clone();
            let r = parse_task_ref(dep.as_str());
            match r.namespace {
                Some(ns) => {
                    let dir = resolve_namespace(&self.root_dir, ns.as_str());
                    self.stack.push(frame);
                    self.phase = Phase::Namespace;
                    assert(frames(self.stack@) =~= here);
                    Action::Enter { namespace: ns, task: r.task_name, dir }
                },
                None => {
                    match self.kylefile.tasks.get(dep.as_str()) {
                        Some(task) => {
                            let child = Frame {
                                name: dep,
                                task: task.clone(),
                                next: 0,
                                args: Vec::new(),
                            };
                            self.stack.push(frame);
                            self.stack.push(child);
                            self.phase = Phase::Ready;
                            proof {
                                assert(texts(child.args@) =~= Seq::<Seq<char>>::empty());
                                assert(frames(self.stack@) =~= here.push(child@));
                            }
                            Action::Again
                        },
                        None => {
                            self.stack.push(frame);
                            proof {
                                assert(frames(self.stack@) =~= here);
                                assert forall|i: int| 0 <= i < here.len() implies 0 <= (
                                #[trigger] here[i]).next < here[i].deps.len() by {
                                    if i < rest.len() {
                                        assert(here[i] == rest[i]);
                                    }
                                }
                            }
                            let e = self.unwind(Error::TaskNotFound(dep));
                            Action::Finish(Err(e))
                        },
                    }
                },
            }
        } else if self.executed.contains(frame.name.as_str()) {
            self.leave(Ghost(frame@))
        } else {
            let command = build_command(&frame.task.run, &frame.args);
            let task = frame.name.clone();
            self.stack.push(frame);
            self.phase = Phase::Command;
            assert(frames(self.stack@) =~= here);
            Action::Execute { task, command }
        }
    }

    /// Begins the run of the task `task_name`; `args` are added to its
    /// command, not to those of its dependencies. Fails at once where no
    /// task has that name.
    pub fn begin(&mut self, task_name: &str, args: &[String]) -> (action: Action)
        requires
            orderly(old(self)@),
            old(self)@.phase is Idle,
        ensures
            (final(self)@, action@) == begun(old(self)@, task_name@, texts(args@)),
            final(self).file() == old(self).file(),
            final(self).dirs() == old(self).dirs(),
            orderly(final(self)@),
    {
        proof {
            lemma_orderly(self@, Report::Begin(task_name@, texts(args@)));
        }
        match self.kylefile.tasks.get(task_name) {
            Some(task) => {
                let frame = Frame {
                    name: task_name.to_owned(),
                    task: task.clone(),
                    next: 0,
                    args: copy_strings(args),
                };
                self.stack.push(frame);
                self.phase = Phase::Ready;
                proof {
                    assert(frames(self.stack@) =~= seq![frame@]);
                    assert(orderly(self@));
                }
                self.resume()
            },
            None => {
                assert(frames(self.stack@) =~= Seq::<FrameView>::empty());
                Action::Finish(Err(Error::TaskNotFound(task_name.to_owned())))
            },
        }
    }

    /// Takes note of how the command of the innermost task went.
    pub fn command_ended(&mut self, outcome: Outcome) -> (action: Action)
        requires
            orderly(old(self)@),
            old(self)@.phase is Command,
        ensures
            (final(self)@, action@) == after_command(old(self)@, command_failure(outcome)),
            final(self).file() == old(self).file(),
            final(self).dirs() == old(self).dirs(),
            orderly(final(self)@),
    {
        let ghost s = self@;
        proof {
            lemma_orderly(s, Report::Command(command_failure(outcome)));
        }
        let frame = self.stack.pop().unwrap();
        let ghost rest = frames(self.stack@);
        proof {
            assert(rest =~= s.stack.drop_last());
            assert(s.stack[s.stack.len() - 1] == frame@);
            assert forall|i: int| 0 <= i < rest.len() implies 0 <= (#[trigger] rest[i]).next
                < rest[i].deps.len() by {
                assert(rest[i] == s.stack[i]);
            }
        }
        let why = match outcome {
            Outcome::Success => None,
            Outcome::Failed(code) => {
                let mut text = chars_of("exit code: ");
                let n: i32 = match code {
                    Some(n) => n,
                    None => -1,
                };
                append(&mut text, &decimal_of(n));
                Some(string_of(&text))
            },
            Outcome::NotStarted(text) => Some(text),
        };
        match why {
            None => {
                self.executed.insert(frame.name.clone());
                let action = self.leave(Ghost(frame@));
                proof {
                    assert(rest.push(frame@) =~= s.stack);
                }
                action
            },
            Some(text) => {
                let e = self.unwind(Error::ExecutionFailed { task: frame.name, reason: text });
                Action::Finish(Err(e))
            },
        }
    }

    /// Takes note of how the visit to the namespace went.
    pub fn namespace_left(&mut self, visit: Visit) -> (action: Action)
        requires
            orderly(old(self)@),
            old(self)@.phase is Namespace,
        ensures
            (final(self)@, action@) == after_namespace(
                old(self)@,
                visit_failure(visited(old(self)@), visit),
            ),
            final(self).file() == old(self).file(),
            final(self).dirs() == old(self).dirs(),
            orderly(final(self)@),
    {
        let ghost s = self@;
        proof {
            lemma_orderly(s, Report::Namespace(visit_failure(visited(s), visit)));
        }
        let mut frame = self.stack.pop().unwrap();
        let ghost top = frame@;
        let ghost rest = frames(self.stack@);
        proof {
            assert(rest =~= s.stack.drop_last());
            assert(s.stack[s.stack.len() - 1] == top);
            assert forall|i: int| 0 <= i < rest.len() implies 0 <= (#[trigger] rest[i]).next
                < rest[i].deps.len() by {
                assert(rest[i] == s.stack[i]);
            }
        }
        let r = parse_task_ref(frame.task.deps[frame.next].as_str());
        let ns = match r.namespace {
            Some(ns) => ns,
            None => String::new(),
        };
        let failure = match visit {
            Visit::Completed => None,
            Visit::Missing => Some(Error::NamespaceNotFound(ns.clone())),
            Visit::Unreadable(e) => Some(
                Error::NamespaceLoadFailed { namespace: ns.clone(), source: e },
            ),
            Visit::Failed(e) => Some(e),
        };
        match failure {
            None => {
                self.executed.insert(key_of(ns.as_str(), r.task_name.as_str()));
                assert(top.next < top.deps.len());
                assert(frame.next < frame.task.deps.len());
                frame.next = frame.next + 1;
                self.stack.push(frame);
                self.phase = Phase::Ready;
                assert(frames(self.stack@) =~= rest.push(frame@));
                Action::Again
            },
            Some(e) => {
                self.stack.push(frame);
                proof {
                    let now = rest.push(top);
                    assert(frames(self.stack@) =~= now);
                    assert(now =~= s.stack);
                    assert forall|i: int| 0 <= i < now.len() implies 0 <= (#[trigger] now[i]).next
                        < now[i].deps.len() by {
                        if i < rest.len() {
                            assert(now[i] == rest[i]);
                        }
                    }
                }
                let e = self.unwind(e);
                Action::Finish(Err(e))
            },
        }
    }
}

/// The key under which the completion of `task` in `namespace` is recorded.
fn key_of(namespace: &str, task: &str) -> (key: String)
    ensures
        key@ == namespace@ + ":"@ + task@,
{
    let mut text = chars_of(namespace);
    append(&mut text, &chars_of(":"));
    append(&mut text, &chars_of(task));
    string_of(&text)
}

/// A copy of each string of `v`.
fn copy_strings(v: &[String]) -> (out: Vec<String>)
    ensures
        texts(out@) == texts(v@),
{
    let mut out: Vec<String> = Vec::new();
    let mut i: usize = 0;
    while i < v.len()
        invariant
            i <= v.len(),
            out.len() == i,
            forall|k: int| 0 <= k < i ==> out@[k]@ == v@[k]@,
        decreases v.len() - i,
    {
        out.push(v[i].clone());
        i += 1;
    }
    assert(texts(out@) =~= texts(v@));
    out
}

/// The command line of a task with the command `run` and the extra
/// arguments `args`.
pub fn build_command(run: &String, args: &Vec<String>) -> (command: String)
    ensures
        command@ == command_line(run@, texts(args@)),
{
    if args.len() == 0 {
        run.clone()
    } else {
        let mut parts: Vec<Vec<char>> = Vec::new();
        let mut i: usize = 0;
        while i < args.len()
            invariant
                i <= args.len(),
                parts.len() == i,
                forall|k: int| 0 <= k < i ==> parts@[k]@ == args@[k]@,
            decreases args.len() - i,
        {
            parts.push(chars_of(args[i].as_str()));
            i += 1;
        }
        assert(views(parts@) =~= texts(args@));
        let mut text = chars_of(run.as_str());
        let space = chars_of(" ");
        append(&mut text, &space);
        append(&mut text, &join_with(&parts, &space));
        string_of(&text)
    }
}

} // verus!
