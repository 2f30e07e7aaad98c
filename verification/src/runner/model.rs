//! The engine's model: its states, the steps between them, and what holds
//! of every run.

use crate::config::kylefile::TaskView;
use crate::config::Fault;
use crate::namespace::{resolved, TaskRefView};
use crate::runner::Phase;
use crate::text::{decimal, join};
use vstd::prelude::*;

verus! {

/// Why a run failed.
pub enum Failure {
    TaskNotFound(Seq<char>),
    NamespaceNotFound(Seq<char>),
    NamespaceLoadFailed { namespace: Seq<char>, fault: Fault },
    DependencyFailed { dep: Seq<char>, cause: Box<Failure> },
    ExecutionFailed { task: Seq<char>, reason: Seq<char> },
}

/// What the failure says to the user: each failure names what failed and,
/// after a colon, what made it fail.
pub open spec fn report(f: Failure) -> Seq<char>
    decreases f,
{
    match f {
        Failure::TaskNotFound(name) => "task not found: "@ + name,
        Failure::NamespaceNotFound(name) => "namespace not found: "@ + name,
        Failure::NamespaceLoadFailed { namespace, fault } => "failed to load namespace '"@
            + namespace + "': "@ + crate::config::message_of(fault),
        Failure::DependencyFailed { dep, cause } => "dependency '"@ + dep + "' failed: "@ + report(
            *cause,
        ),
        Failure::ExecutionFailed { task, reason } => "task '"@ + task + "' failed: "@ + reason,
    }
}

/// What an action says.
pub enum Step {
    Execute { task: Seq<char>, command: Seq<char> },
    Enter { namespace: Seq<char>, task: Seq<char> },
    Again,
    Finish(Result<(), Failure>),
}

/// A task that a run has reached and not yet left.
pub struct FrameView {
    pub name: Seq<char>,
    pub run: Seq<char>,
    pub deps: Seq<Seq<char>>,
    /// The index of the dependency that is handled next, or under way.
    pub next: int,
    /// What is added to the command.
    pub args: Seq<Seq<char>>,
}

/// The engine's state.
pub struct RunnerView {
    /// The tasks that can be run.
    pub tasks: Map<Seq<char>, TaskView>,
    /// The keys of what has completed: the names of tasks whose command ran,
    /// and `namespace:task` for each task that ran in a namespace.
    pub done: Set<Seq<char>>,
    /// The tasks reached and not yet left, the requested one first.
    pub stack: Seq<FrameView>,
    pub phase: Phase,
}

/// The line that lists the task called `name`: the name, and after a dash
/// the description where there is one.
pub open spec fn listing(name: Seq<char>, task: TaskView) -> Seq<char> {
    if task.desc.len() == 0 {
        "  "@ + name
    } else {
        "  "@ + name + " - "@ + task.desc
    }
}

/// The key under which the completion of a namespaced task is recorded.
pub open spec fn namespace_key(r: TaskRefView) -> Seq<char> {
    r.namespace->0 + ":"@ + r.task_name
}

/// Whether the dependency `dep` of the task `owner` is passed over. One in a
/// namespace is, once it has completed; one of the same project is, once
/// `owner` itself has completed.
pub open spec fn skipped(done: Set<Seq<char>>, owner: Seq<char>, dep: Seq<char>) -> bool {
    let r = resolved(dep);
    if r.namespace is Some {
        done.contains(dep) || done.contains(namespace_key(r))
    } else {
        done.contains(owner)
    }
}

/// The index of the first dependency from `from` on that is not passed
/// over, or the number of dependencies.
pub open spec fn pending_from(
    done: Set<Seq<char>>,
    owner: Seq<char>,
    deps: Seq<Seq<char>>,
    from: int,
) -> int
    decreases deps.len() - from,
{
    if 0 <= from < deps.len() && skipped(done, owner, deps[from]) {
        pending_from(done, owner, deps, from + 1)
    } else {
        from
    }
}

/// The command line of a task: its command, and after a space the extra
/// arguments with a space between them, where there are any.
pub open spec fn command_line(run: Seq<char>, args: Seq<Seq<char>>) -> Seq<char> {
    if args.len() == 0 {
        run
    } else {
        run + " "@ + join(args, " "@)
    }
}

/// The failure `e` of the dependency under way in the innermost task of
/// `stack`, as the requested task reports it: each task on the way names
/// the dependency of its own that failed.
pub open spec fn wrapped(stack: Seq<FrameView>, e: Failure) -> Failure
    decreases stack.len(),
{
    if stack.len() == 0 {
        e
    } else {
        let top = stack.last();
        wrapped(
            stack.drop_last(),
            Failure::DependencyFailed { dep: top.deps[top.next], cause: Box::new(e) },
        )
    }
}

/// The state and the step when the run fails with `e`.
pub open spec fn stopped(s: RunnerView, e: Failure) -> (RunnerView, Step) {
    (RunnerView { stack: Seq::empty(), phase: Phase::Idle, ..s }, Step::Finish(Err(e)))
}

/// The state and the step when the innermost task is left with success:
/// the task that depends on it goes on with its next dependency.
pub open spec fn left(s: RunnerView) -> (RunnerView, Step) {
    let rest = s.stack.drop_last();
    if rest.len() == 0 {
        (RunnerView { stack: rest, phase: Phase::Idle, ..s }, Step::Finish(Ok(())))
    } else {
        let parent = rest.last();
        (
            RunnerView {
                stack: rest.drop_last().push(FrameView { next: parent.next + 1, ..parent }),
                phase: Phase::Ready,
                ..s
            },
            Step::Again,
        )
    }
}

/// The state and the step after `resume`. The innermost task passes over
/// the dependencies that need no run. At the first that does, the run enters
/// its namespace, or reaches the task of that name, or fails where there is
/// none. With no dependency left, the task's command is due, unless the task
/// has completed before: then it is left at once.
pub open spec fn resumed(s: RunnerView) -> (RunnerView, Step) {
    let top = s.stack.last();
    let at = pending_from(s.done, top.name, top.deps, top.next);
    let here = s.stack.drop_last().push(FrameView { next: at, ..top });
    if at < top.deps.len() {
        let dep = top.deps[at];
        let r = resolved(dep);
        if r.namespace is Some {
            (
                RunnerView { stack: here, phase: Phase::Namespace, ..s },
                Step::Enter { namespace: r.namespace->0, task: r.task_name },
            )
        } else if s.tasks.contains_key(dep) {
            (
                RunnerView {
                    stack: here.push(
                        FrameView {
                            name: dep,
                            run: s.tasks[dep].run,
                            deps: s.tasks[dep].deps,
                            next: 0,
                            args: Seq::empty(),
                        },
                    ),
                    phase: Phase::Ready,
                    ..s
                },
                Step::Again,
            )
        } else {
            stopped(s, wrapped(here, Failure::TaskNotFound(dep)))
        }
    } else if s.done.contains(top.name) {
        left(RunnerView { stack: here, ..s })
    } else {
        (
            RunnerView { stack: here, phase: Phase::Command, ..s },
            Step::Execute { task: top.name, command: command_line(top.run, top.args) },
        )
    }
}

/// The state and the step after `begin`: the task is reached, if there is
/// one of that name, and the run goes on as after `resume`.
pub open spec fn begun(s: RunnerView, name: Seq<char>, args: Seq<Seq<char>>) -> (RunnerView, Step) {
    if s.tasks.contains_key(name) {
        resumed(
            RunnerView {
                stack: seq![
                    FrameView {
                        name,
                        run: s.tasks[name].run,
                        deps: s.tasks[name].deps,
                        next: 0,
                        args,
                    },
                ],
                phase: Phase::Ready,
                ..s
            },
        )
    } else {
        stopped(s, Failure::TaskNotFound(name))
    }
}

/// What a command's outcome is, as a failure reports it.
pub open spec fn reason(code: Option<i32>) -> Seq<char> {
    "exit code: "@ + decimal(
        match code {
            Some(n) => n as int,
            None => -1,
        },
    )
}

/// The state and the step after the innermost task's command has ended:
/// with success the task has completed and is left, otherwise the run fails.
pub open spec fn after_command(s: RunnerView, task_failure: Option<Seq<char>>) -> (
    RunnerView,
    Step,
) {
    let top = s.stack.last();
    match task_failure {
        None => left(RunnerView { done: s.done.insert(top.name), ..s }),
        Some(why) => stopped(
            s,
            wrapped(
                s.stack.drop_last(),
                Failure::ExecutionFailed { task: top.name, reason: why },
            ),
        ),
    }
}

/// The state and the step after the visit to a namespace: with success the
/// dependency has completed and the next one is due, otherwise the run fails.
pub open spec fn after_namespace(s: RunnerView, visit_failure: Option<Failure>) -> (
    RunnerView,
    Step,
) {
    let top = s.stack.last();
    match visit_failure {
        None => (
            RunnerView {
                done: s.done.insert(namespace_key(resolved(top.deps[top.next]))),
                stack: s.stack.drop_last().push(FrameView { next: top.next + 1, ..top }),
                phase: Phase::Ready,
                ..s
            },
            Step::Again,
        ),
        Some(e) => stopped(s, wrapped(s.stack, e)),
    }
}

/// Whether the state is one that the engine can be in.
pub open spec fn well_formed(s: RunnerView) -> bool {
    &&& s.phase is Idle <==> s.stack.len() == 0
    &&& forall|i: int|
        0 <= i < s.stack.len() ==> 0 <= (#[trigger] s.stack[i]).next <= s.stack[i].deps.len()
    &&& forall|i: int|
        0 <= i < s.stack.len() - 1 ==> (#[trigger] s.stack[i]).next < s.stack[i].deps.len()
    &&& s.phase is Namespace ==> s.stack.last().next < s.stack.last().deps.len() && resolved(
        s.stack.last().deps[s.stack.last().next],
    ).namespace is Some
}

/// A call that the driver makes.
pub enum Report {
    /// `begin`, with the task's name and the extra arguments.
    Begin(Seq<char>, Seq<Seq<char>>),
    /// `resume`.
    Resume,
    /// `command_ended`, with the reason where the command failed.
    Command(Option<Seq<char>>),
    /// `namespace_left`, with the failure where the visit failed.
    Namespace(Option<Failure>),
}

/// Whether the call `r` is the one that the engine waits for.
pub open spec fn due(s: RunnerView, r: Report) -> bool {
    match r {
        Report::Begin(_, _) => s.phase is Idle,
        Report::Resume => s.phase is Ready,
        Report::Command(_) => s.phase is Command,
        Report::Namespace(_) => s.phase is Namespace,
    }
}

/// The state and the step after the call `r`.
pub open spec fn next(s: RunnerView, r: Report) -> (RunnerView, Step) {
    match r {
        Report::Begin(name, args) => begun(s, name, args),
        Report::Resume => resumed(s),
        Report::Command(failure) => after_command(s, failure),
        Report::Namespace(failure) => after_namespace(s, failure),
    }
}

/// The steps that the engine answers the calls `reports` with, one after
/// the other from the state `s`, as far as each call is the one due.
pub open spec fn steps(s: RunnerView, reports: Seq<Report>) -> Seq<Step>
    decreases reports.len(),
{
    if reports.len() == 0 || !due(s, reports[0]) {
        Seq::empty()
    } else {
        seq![next(s, reports[0]).1] + steps(next(s, reports[0]).0, reports.drop_first())
    }
}

/// No call takes away from what has completed, and a command is asked for
/// only where its task has not completed.
pub proof fn lemma_next(s: RunnerView, r: Report)
    ensures
        s.done.subset_of(next(s, r).0.done),
        next(s, r).1 matches Step::Execute { task, .. } ==> !s.done.contains(task),
        r matches Report::Command(None) ==> next(s, r).0.done.contains(s.stack.last().name)
            && !(next(s, r).1 is Execute),
{
}

/// Whatever the calls, no step asks for the command of a task that had
/// completed before them.
pub proof fn lemma_completed_stays(s: RunnerView, reports: Seq<Report>, task: Seq<char>)
    requires
        s.done.contains(task),
    ensures
        forall|i: int|
            0 <= i < steps(s, reports).len() ==> !(#[trigger] steps(s, reports)[i]
                matches Step::Execute { task: t, .. } && t == task),
    decreases reports.len(),
{
    if reports.len() > 0 && due(s, reports[0]) {
        lemma_next(s, reports[0]);
        lemma_completed_stays(next(s, reports[0]).0, reports.drop_first(), task);
    }
}

/// A command runs once: after the command of a task has succeeded, no
/// step asks for it again, whatever the calls that follow.
pub proof fn lemma_command_runs_once(s: RunnerView, later: Seq<Report>)
    requires
        s.phase is Command,
    ensures
        forall|i: int|
            0 <= i < steps(s, seq![Report::Command(None)] + later).len() ==> !(#[trigger] steps(
                s,
                seq![Report::Command(None)] + later,
            )[i] matches Step::Execute { task: t, .. } && t == s.stack.last().name),
{
    let reports = seq![Report::Command(None)] + later;
    assert(reports[0] == Report::Command(None));
    assert(reports.drop_first() =~= later);
    lemma_next(s, reports[0]);
    lemma_completed_stays(next(s, reports[0]).0, later, s.stack.last().name);
}

/// Whether the dependency `dep` has completed: its task has, or in a
/// namespace the task that it names.
pub open spec fn completed(done: Set<Seq<char>>, dep: Seq<char>) -> bool {
    done.contains(dep) || (resolved(dep).namespace is Some && done.contains(
        namespace_key(resolved(dep)),
    ))
}

/// Whether the state is one that a run leads to: it is well-formed, each
/// task on the way was reached as the dependency under way of the one before
/// it, and the dependencies that a task has behind it have completed, unless
/// the task itself has.
pub open spec fn orderly(s: RunnerView) -> bool {
    &&& well_formed(s)
    &&& forall|i: int|
        0 <= i < s.stack.len() - 1 ==> (#[trigger] s.stack[i + 1]).name == s.stack[i].deps[s.stack[i].next]
    &&& forall|i: int, j: int|
        0 <= i < s.stack.len() && 0 <= j < s.stack[i].next ==> s.done.contains(s.stack[i].name)
            || completed(s.done, #[trigger] s.stack[i].deps[j])
}

/// The task that a run was begun for.
pub open spec fn requested(s: RunnerView, r: Report) -> Seq<char> {
    match r {
        Report::Begin(name, _) => name,
        _ => s.stack[0].name,
    }
}

/// What lies between `from` and the first pending dependency is passed
/// over, and the pending one is not.
proof fn lemma_pending(done: Set<Seq<char>>, owner: Seq<char>, deps: Seq<Seq<char>>, from: int)
    requires
        0 <= from <= deps.len(),
    ensures
        from <= pending_from(done, owner, deps, from) <= deps.len(),
        forall|j: int|
            from <= j < pending_from(done, owner, deps, from) ==> skipped(
                done,
                owner,
                #[trigger] deps[j],
            ),
        pending_from(done, owner, deps, from) < deps.len() ==> !skipped(
            done,
            owner,
            deps[pending_from(done, owner, deps, from)],
        ),
    decreases deps.len() - from,
{
    if from < deps.len() && skipped(done, owner, deps[from]) {
        lemma_pending(done, owner, deps, from + 1);
    }
}

/// A call that is due leads from an orderly state to an orderly state.
pub proof fn lemma_orderly(s: RunnerView, r: Report)
    requires
        orderly(s),
        due(s, r),
    ensures
        orderly(next(s, r).0),
{
    let t = next(s, r).0;
    match r {
        Report::Begin(name, args) => {
            if s.tasks.contains_key(name) {
                let frame = FrameView {
                    name,
                    run: s.tasks[name].run,
                    deps: s.tasks[name].deps,
                    next: 0,
                    args,
                };
                let began = RunnerView { stack: seq![frame], phase: Phase::Ready, ..s };
                assert(orderly(began));
                lemma_resumed_orderly(began);
            }
        },
        Report::Resume => {
            lemma_resumed_orderly(s);
        },
        Report::Command(failure) => {
            if failure is None {
                let top = s.stack.last();
                let marked = RunnerView { done: s.done.insert(top.name), ..s };
                assert(orderly(RunnerView { phase: Phase::Ready, ..marked }));
                lemma_left_orderly(marked);
            }
        },
        Report::Namespace(failure) => {
            if failure is None {
                let top = s.stack.last();
                let n = s.stack.len() - 1;
                assert forall|i: int, j: int|
                    0 <= i < t.stack.len() && 0 <= j < t.stack[i].next implies t.done.contains(
                    t.stack[i].name,
                ) || completed(t.done, #[trigger] t.stack[i].deps[j]) by {
                    if i < n {
                        assert(t.stack[i] == s.stack[i]);
                        assert(s.done.contains(s.stack[i].name) || completed(
                            s.done,
                            s.stack[i].deps[j],
                        ));
                    } else if j < top.next {
                        assert(s.done.contains(s.stack[n].name) || completed(
                            s.done,
                            s.stack[n].deps[j],
                        ));
                    }
                }
                assert forall|i: int| 0 <= i < t.stack.len() - 1 implies (#[trigger] t.stack[i
                    + 1]).name == t.stack[i].deps[t.stack[i].next] by {
                    assert(t.stack[i] == s.stack[i]);
                    assert(s.stack[i + 1].name == s.stack[i].deps[s.stack[i].next]);
                }
            }
        },
    }
}

/// Leaving the innermost task, which has completed, keeps the state
/// orderly.
proof fn lemma_left_orderly(s: RunnerView)
    requires
        s.stack.len() > 0,
        s.done.contains(s.stack.last().name),
        orderly(RunnerView { phase: Phase::Ready, ..s }),
    ensures
        orderly(left(s).0),
{
    let t = left(s).0;
    let rest = s.stack.drop_last();
    if rest.len() > 0 {
        let n = rest.len() - 1;
        assert(s.stack[n + 1].name == s.stack[n].deps[s.stack[n].next]);
        assert forall|i: int, j: int|
            0 <= i < t.stack.len() && 0 <= j < t.stack[i].next implies t.done.contains(
            t.stack[i].name,
        ) || completed(t.done, #[trigger] t.stack[i].deps[j]) by {
            if i < n {
                assert(t.stack[i] == s.stack[i]);
                assert(s.done.contains(s.stack[i].name) || completed(s.done, s.stack[i].deps[j]));
            } else if j < s.stack[n].next {
                assert(s.done.contains(s.stack[n].name) || completed(s.done, s.stack[n].deps[j]));
            }
        }
        assert forall|i: int| 0 <= i < t.stack.len() - 1 implies (#[trigger] t.stack[i + 1]).name
            == t.stack[i].deps[t.stack[i].next] by {
            assert(t.stack[i] == s.stack[i]);
            assert(s.stack[i + 1].name == s.stack[i].deps[s.stack[i].next]);
        }
        assert forall|i: int| 0 <= i < t.stack.len() implies 0 <= (#[trigger] t.stack[i]).next
            <= t.stack[i].deps.len() by {
            if i < n {
                assert(t.stack[i] == s.stack[i]);
            }
        }
        assert forall|i: int| 0 <= i < t.stack.len() - 1 implies (#[trigger] t.stack[i]).next
            < t.stack[i].deps.len() by {
            assert(t.stack[i] == s.stack[i]);
        }
    }
}

/// Going on from an orderly state keeps the state orderly.
proof fn lemma_resumed_orderly(s: RunnerView)
    requires
        orderly(s),
        s.phase is Ready,
    ensures
        orderly(resumed(s).0),
{
    let t = resumed(s).0;
    let top = s.stack.last();
    let n = s.stack.len() - 1;
    assert(s.stack[n] == top);
    lemma_pending(s.done, top.name, top.deps, top.next);
    let at = pending_from(s.done, top.name, top.deps, top.next);
    let here = s.stack.drop_last().push(FrameView { next: at, ..top });
    let moved = RunnerView { stack: here, ..s };
    assert(orderly(moved)) by {
        assert forall|i: int, j: int|
            0 <= i < here.len() && 0 <= j < here[i].next implies s.done.contains(here[i].name)
            || completed(s.done, #[trigger] here[i].deps[j]) by {
            if i < n {
                assert(here[i] == s.stack[i]);
                assert(s.done.contains(s.stack[i].name) || completed(s.done, s.stack[i].deps[j]));
            } else if j < top.next {
                assert(s.done.contains(s.stack[n].name) || completed(s.done, s.stack[n].deps[j]));
            } else {
                assert(skipped(s.done, top.name, top.deps[j]));
            }
        }
        assert forall|i: int| 0 <= i < here.len() - 1 implies (#[trigger] here[i + 1]).name
            == here[i].deps[here[i].next] by {
            assert(here[i] == s.stack[i]);
            assert(s.stack[i + 1].name == s.stack[i].deps[s.stack[i].next]);
        }
        assert forall|i: int| 0 <= i < here.len() implies 0 <= (#[trigger] here[i]).next
            <= here[i].deps.len() by {
            if i < n {
                assert(here[i] == s.stack[i]);
            }
        }
        assert forall|i: int| 0 <= i < here.len() - 1 implies (#[trigger] here[i]).next
            < here[i].deps.len() by {
            assert(here[i] == s.stack[i]);
        }
    }
    if at < top.deps.len() {
        let dep = top.deps[at];
        if resolved(dep).namespace is None && s.tasks.contains_key(dep) {
            let child = FrameView {
                name: dep,
                run: s.tasks[dep].run,
                deps: s.tasks[dep].deps,
                next: 0,
                args: Seq::empty(),
            };
            let now = here.push(child);
            assert(t.stack == now);
            assert forall|i: int, j: int|
                0 <= i < now.len() && 0 <= j < now[i].next implies s.done.contains(now[i].name)
                || completed(s.done, #[trigger] now[i].deps[j]) by {
                if i < here.len() {
                    assert(now[i] == here[i]);
                    assert(s.done.contains(here[i].name) || completed(s.done, here[i].deps[j]));
                }
            }
            assert forall|i: int| 0 <= i < now.len() - 1 implies (#[trigger] now[i + 1]).name
                == now[i].deps[now[i].next] by {
                if i < here.len() - 1 {
                    assert(now[i] == here[i]);
                    assert(now[i + 1] == here[i + 1]);
                    assert(here[i + 1].name == here[i].deps[here[i].next]);
                }
            }
            assert forall|i: int| 0 <= i < now.len() implies 0 <= (#[trigger] now[i]).next
                <= now[i].deps.len() by {
                if i < here.len() {
                    assert(now[i] == here[i]);
                }
            }
            assert forall|i: int| 0 <= i < now.len() - 1 implies (#[trigger] now[i]).next
                < now[i].deps.len() by {
                assert(now[i] == here[i]);
            }
        }
    } else if s.done.contains(top.name) {
        assert(moved.stack.last().name == top.name);
        lemma_left_orderly(moved);
    }
}

/// Dependencies run first: where a call that is due asks for a command,
/// every dependency of its task has completed.
pub proof fn lemma_dependencies_first(s: RunnerView, r: Report)
    requires
        orderly(s),
        due(s, r),
    ensures
        next(s, r).1 matches Step::Execute { task, .. } ==> {
            let top = next(s, r).0.stack.last();
            &&& top.name == task
            &&& forall|j: int| 0 <= j < top.deps.len() ==> completed(s.done, #[trigger] top.deps[j])
        },
{
    if next(s, r).1 is Execute {
        let began = match r {
            Report::Begin(name, args) => RunnerView {
                stack: seq![
                    FrameView {
                        name,
                        run: s.tasks[name].run,
                        deps: s.tasks[name].deps,
                        next: 0,
                        args,
                    },
                ],
                phase: Phase::Ready,
                ..s
            },
            _ => s,
        };
        assert(orderly(began));
        let top = began.stack.last();
        let n = began.stack.len() - 1;
        assert(began.stack[n] == top);
        lemma_pending(began.done, top.name, top.deps, top.next);
        assert forall|j: int| 0 <= j < top.deps.len() implies completed(
            s.done,
            #[trigger] top.deps[j],
        ) by {
            if j < top.next {
                assert(began.done.contains(began.stack[n].name) || completed(
                    began.done,
                    began.stack[n].deps[j],
                ));
            } else {
                assert(skipped(began.done, top.name, top.deps[j]));
            }
        }
    }
}

/// A run that ends in success has completed the task that it was begun
/// for, and until it ends that task stays the first on the way.
pub proof fn lemma_success_completes(s: RunnerView, r: Report)
    requires
        orderly(s),
        due(s, r),
    ensures
        next(s, r).1 == Step::Finish(Ok(())) ==> next(s, r).0.done.contains(requested(s, r)),
        next(s, r).0.stack.len() > 0 ==> next(s, r).0.stack[0].name == requested(s, r),
{
    match r {
        Report::Begin(name, args) => {
            if s.tasks.contains_key(name) {
                let frame = FrameView {
                    name,
                    run: s.tasks[name].run,
                    deps: s.tasks[name].deps,
                    next: 0,
                    args,
                };
                let began = RunnerView { stack: seq![frame], phase: Phase::Ready, ..s };
                assert(began.stack[0] == frame);
                assert(began.stack.drop_last() =~= Seq::<FrameView>::empty());
            }
        },
        _ => {
            let n = s.stack.len() - 1;
            assert(s.stack.last() == s.stack[n]);
            if n > 0 {
                assert(s.stack.drop_last()[0] == s.stack[0]);
                assert(s.stack.drop_last().drop_last().len() == n - 1);
                if n > 1 {
                    assert(s.stack.drop_last().drop_last()[0] == s.stack[0]);
                }
            }
        },
    }
}

/// Dependencies that are all passed over leave none pending.
proof fn lemma_none_pending(
    done: Set<Seq<char>>,
    owner: Seq<char>,
    deps: Seq<Seq<char>>,
    from: int,
)
    requires
        0 <= from <= deps.len(),
        forall|i: int| 0 <= i < deps.len() ==> skipped(done, owner, #[trigger] deps[i]),
    ensures
        pending_from(done, owner, deps, from) == deps.len(),
    decreases deps.len() - from,
{
    if from < deps.len() {
        lemma_none_pending(done, owner, deps, from + 1);
    }
}

/// Running a task again after it has completed, and with it the
/// dependencies that it has in namespaces, succeeds at once: no action is
/// asked for and the state stays as it is.
pub proof fn lemma_run_again(s: RunnerView, name: Seq<char>, args: Seq<Seq<char>>)
    requires
        well_formed(s),
        s.phase is Idle,
        s.tasks.contains_key(name),
        s.done.contains(name),
        forall|i: int|
            0 <= i < s.tasks[name].deps.len() && resolved(
                #[trigger] s.tasks[name].deps[i],
            ).namespace is Some ==> skipped(s.done, name, s.tasks[name].deps[i]),
    ensures
        begun(s, name, args) == (s, Step::Finish(Ok(()))),
{
    let deps = s.tasks[name].deps;
    assert forall|i: int| 0 <= i < deps.len() implies skipped(s.done, name, #[trigger] deps[i]) by {
    }
    lemma_none_pending(s.done, name, deps, 0);
    let frame = FrameView { name, run: s.tasks[name].run, deps, next: 0, args };
    let here = seq![frame].drop_last().push(FrameView { next: deps.len() as int, ..frame });
    assert(here.drop_last() =~= Seq::<FrameView>::empty());
    assert(s.stack =~= Seq::<FrameView>::empty());
}

} // verus!
