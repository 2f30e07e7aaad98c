//! Task references and the directories they lead to.
//!
//! A namespace is a directory below the project's root that holds task
//! definitions of its own. A task in it is named by the directory's path, a
//! separator and the task's name.

pub mod discovery;

use crate::text::{chars_of, slice, string_of};
use std::path::{Path, PathBuf};
use vstd::prelude::*;

verus! {

/// `std::path::Path`: a path is carried through as it is and never looked
/// into.
#[verifier::external_type_specification]
#[verifier::external_body]
pub struct ExPath(Path);

/// `std::path::PathBuf`: a path of its own, carried through likewise.
#[verifier::external_type_specification]
#[verifier::external_body]
pub struct ExPathBuf(PathBuf);

/// A `PathBuf` lends itself as the `Path` that it holds.
pub assume_specification[ <PathBuf as std::ops::Deref>::deref ](p: &PathBuf) -> &Path;

/// What a task reference says: the namespace, if it names one, and the task.
pub struct TaskRefView {
    pub namespace: Option<Seq<char>>,
    pub task_name: Seq<char>,
}

/// A reference to a task, as a user or a dependency list writes it.
#[derive(Debug, PartialEq, Eq)]
pub struct TaskRef {
    pub namespace: Option<String>,
    pub task_name: String,
}

impl View for TaskRef {
    type V = TaskRefView;

    open spec fn view(&self) -> TaskRefView {
        TaskRefView {
            namespace: match self.namespace {
                Some(ns) => Some(ns@),
                None => None,
            },
            task_name: self.task_name@,
        }
    }
}

impl Clone for TaskRef {
    fn clone(&self) -> (out: Self)
        ensures
            out@ == self@,
    {
        TaskRef {
            namespace: match &self.namespace {
                Some(ns) => Some(ns.clone()),
                None => None,
            },
            task_name: self.task_name.clone(),
        }
    }
}

impl TaskRef {
    /// A reference to a task of the current project.
    pub fn new(task_name: &str) -> (out: Self)
        ensures
            out@ == (TaskRefView { namespace: None, task_name: task_name@ }),
    {
        TaskRef { namespace: None, task_name: task_name.to_owned() }
    }

    /// A reference to a task of the namespace `namespace`.
    pub fn with_namespace(namespace: &str, task_name: &str) -> (out: Self)
        ensures
            out@ == (TaskRefView { namespace: Some(namespace@), task_name: task_name@ }),
    {
        TaskRef { namespace: Some(namespace.to_owned()), task_name: task_name.to_owned() }
    }

    /// Whether the reference names a namespace.
    pub fn is_namespaced(&self) -> (yes: bool)
        ensures
            yes == self@.namespace.is_some(),
    {
        self.namespace.is_some()
    }
}

/// Whether `c` parts a namespace from a task name.
pub open spec fn is_separator(c: char) -> bool {
    c == ':' || c == '.'
}

/// The index of the last separator in `s`, if it holds one.
pub open spec fn last_separator(s: Seq<char>) -> Option<int>
    decreases s.len(),
{
    if s.len() == 0 {
        None
    } else if is_separator(s.last()) {
        Some(s.len() - 1)
    } else {
        last_separator(s.drop_last())
    }
}

/// What `input` refers to. It is split at its last separator, where that is
/// neither its first nor its last character: the namespace stands before it
/// and the task name after it. Any other input is a task name as a whole.
pub open spec fn resolved(input: Seq<char>) -> TaskRefView {
    match last_separator(input) {
        Some(at) if 0 < at < input.len() - 1 => TaskRefView {
            namespace: Some(input.take(at)),
            task_name: input.skip(at + 1),
        },
        _ => TaskRefView { namespace: None, task_name: input },
    }
}

/// The last separator stands at `at` where one stands there and none after.
pub proof fn lemma_last_separator(s: Seq<char>, at: int)
    requires
        -1 <= at < s.len(),
        at >= 0 ==> is_separator(s[at]),
        forall|k: int| at < k < s.len() ==> !is_separator(#[trigger] s[k]),
    ensures
        last_separator(s) == if at >= 0 {
            Some(at)
        } else {
            None::<int>
        },
    decreases s.len(),
{
    if s.len() > 0 && at < s.len() - 1 {
        let t = s.drop_last();
        assert(!is_separator(s[s.len() - 1]));
        assert forall|k: int| at < k < t.len() implies !is_separator(#[trigger] t[k]) by {
            assert(t[k] == s[k]);
        }
        if at >= 0 {
            assert(t[at] == s[at]);
        }
        lemma_last_separator(t, at);
    }
}

/// Reads a task reference such as `build`, `backend:build` or
/// `apps/frontend.test`. Every input is a reference: where a namespace is
/// named, neither it nor the task name is empty; where none is, the task name
/// is the input.
pub fn parse_task_ref(input: &str) -> (out: TaskRef)
    ensures
        out@ == resolved(input@),
        out@.namespace matches Some(ns) ==> ns.len() > 0 && out@.task_name.len() > 0 && input@
            == ns + seq![input@[ns.len() as int]] + out@.task_name && is_separator(
            input@[ns.len() as int],
        ),
        out@.namespace is None ==> out@.task_name == input@,
{
    let text = chars_of(input);
    let mut end: usize = text.len();
    while end > 0 && !(text[end - 1] == ':' || text[end - 1] == '.')
        invariant
            end <= text.len(),
            forall|k: int| end <= k < text.len() ==> !is_separator(#[trigger] text@[k]),
        decreases end,
    {
        end -= 1;
    }
    proof {
        lemma_last_separator(text@, end - 1);
    }
    if end > 1 && end < text.len() {
        let at: usize = end - 1;
        let namespace = slice(&text, 0, at);
        let task_name = slice(&text, end, text.len());
        proof {
            assert(namespace@ =~= text@.take(at as int));
            assert(task_name@ =~= text@.skip(at + 1));
            assert(text@ =~= namespace@ + seq![text@[at as int]] + task_name@);
        }
        TaskRef { namespace: Some(string_of(&namespace)), task_name: string_of(&task_name) }
    } else {
        TaskRef { namespace: None, task_name: input.to_owned() }
    }
}

/// The directory of the namespace `namespace` of the project at `base`.
///
/// This is `Path::join`, which puts the namespace's path after the base; how
/// the two are joined depends on the platform.
#[verifier::external_body]
pub fn resolve_namespace(base: &Path, namespace: &str) -> PathBuf {
    base.join(namespace)
}

} // verus!
