//! The task model: what a task-definition file declares, whatever its format.

use crate::text::is_part_of;
use vstd::prelude::*;

verus! {

/// The text of each string of `v`.
pub open spec fn texts(v: Seq<String>) -> Seq<Seq<char>> {
    Seq::new(v.len(), |i: int| v[i]@)
}

/// What a task is: a description, a shell command and the tasks it depends on.
pub struct TaskView {
    pub desc: Seq<char>,
    pub run: Seq<char>,
    pub deps: Seq<Seq<char>>,
}

/// A named unit of work.
#[derive(Debug)]
pub struct Task {
    /// Shown when tasks are listed; may be empty.
    pub desc: String,
    /// The shell command line; may be empty.
    pub run: String,
    /// References to the tasks that run first, in order.
    pub deps: Vec<String>,
}

impl View for Task {
    type V = TaskView;

    open spec fn view(&self) -> TaskView {
        TaskView { desc: self.desc@, run: self.run@, deps: texts(self.deps@) }
    }
}

/// A copy of each string of `v`.
pub fn clone_strings(v: &Vec<String>) -> (out: Vec<String>)
    ensures
        texts(out@) == texts(v@),
{
    let mut out: Vec<String> = Vec::new();
    let mut i: usize = 0;
    while i < v.len()
        invariant
            i <= v.len(),
            out.len() == i,
            forall|k: int| 0 <= k < i ==> out@[k]@ == v@[k]@,
        decreases v.len() - i,
    {
        out.push(v[i].clone());
        i += 1;
    }
    assert(texts(out@) =~= texts(v@));
    out
}

impl Clone for Task {
    fn clone(&self) -> (out: Self)
        ensures
            out@ == self@,
    {
        Task { desc: self.desc.clone(), run: self.run.clone(), deps: clone_strings(&self.deps) }
    }
}

impl Default for Task {
    fn default() -> (out: Self)
        ensures
            out@ == (TaskView { desc: Seq::empty(), run: Seq::empty(), deps: Seq::empty() }),
    {
        let out = Task { desc: String::new(), run: String::new(), deps: Vec::new() };
        assert(texts(out.deps@) =~= Seq::empty());
        out
    }
}

/// One task under its name.
#[derive(Debug)]
struct Entry {
    name: String,
    task: Task,
}

/// The tasks of one file by name. A name occurs once; the tasks keep the
/// order in which their names first came.
#[derive(Debug)]
pub struct TaskMap {
    entries: Vec<Entry>,
}

/// The index of `name` among `names`, where it occurs.
pub open spec fn position(names: Seq<Seq<char>>, name: Seq<char>) -> int {
    choose|i: int| 0 <= i < names.len() && names[i] == name
}

impl TaskMap {
    #[verifier::type_invariant]
    spec fn unique_names(self) -> bool {
        forall|i: int, j: int|
            0 <= i < j < self.entries.len() ==> self.entries[i].name@ != self.entries[j].name@
    }

    /// The task names, in the order in which they first came.
    pub closed spec fn order(&self) -> Seq<Seq<char>> {
        Seq::new(self.entries@.len(), |i: int| self.entries@[i].name@)
    }

    /// The tasks, each at the index of its name in `order`.
    pub closed spec fn listed(&self) -> Seq<TaskView> {
        Seq::new(self.entries@.len(), |i: int| self.entries@[i].task@)
    }

    /// An empty map.
    pub fn new() -> (out: Self)
        ensures
            out@ == Map::<Seq<char>, TaskView>::empty(),
            out.order() == Seq::<Seq<char>>::empty(),
    {
        let out = TaskMap { entries: Vec::new() };
        assert(out@ =~= Map::<Seq<char>, TaskView>::empty());
        assert(out.order() =~= Seq::<Seq<char>>::empty());
        out
    }

    /// `order` holds each name of the map once, and `listed` its task.
    proof fn lemma_order(&self)
        requires
            self.unique_names(),
        ensures
            self.order().no_duplicates(),
            self.order().len() == self.listed().len(),
            self@.dom() == self.order().to_set(),
            self@.dom().finite(),
            self@.len() == self.order().len(),
            forall|i: int|
                0 <= i < self.order().len() ==> self@[#[trigger] self.order()[i]]
                    == self.listed()[i],
    {
        let order = self.order();
        assert(self@.dom() =~= order.to_set());
        order.unique_seq_to_set();
        assert forall|i: int| 0 <= i < order.len() implies self@[#[trigger] order[i]]
            == self.listed()[i] by {
            let j = position(order, order[i]);
            assert(order[j] == order[i]);
        }
    }

    /// The index of the task called `name`, if there is one.
    fn find(&self, name: &Vec<char>) -> (at: Option<usize>)
        ensures
            match at {
                Some(i) => i < self.entries.len() && self.entries[i as int].name@ == name@,
                None => !self@.contains_key(name@),
            },
    {
        let mut i: usize = 0;
        while i < self.entries.len()
            invariant
                i <= self.entries.len(),
                forall|k: int| 0 <= k < i ==> self.entries[k].name@ != name@,
            decreases self.entries.len() - i,
        {
            let have = crate::text::chars_of(self.entries[i].name.as_str());
            if crate::text::same_text(&have, name) {
                return Some(i);
            }
            i += 1;
        }
        None
    }

    /// The number of tasks.
    pub fn len(&self) -> (n: usize)
        ensures
            n == self@.len(),
            self@.dom().finite(),
    {
        proof {
            use_type_invariant(self);
            self.lemma_order();
        }
        self.entries.len()
    }

    /// Whether the map holds no task.
    pub fn is_empty(&self) -> (empty: bool)
        ensures
            empty == (self@.len() == 0),
            empty == (self@ == Map::<Seq<char>, TaskView>::empty()),
    {
        proof {
            use_type_invariant(self);
            self.lemma_order();
            if self.entries.len() == 0 {
                assert(self@ =~= Map::<Seq<char>, TaskView>::empty());
            }
        }
        self.entries.len() == 0
    }

    /// Whether a task is called `name`.
    pub fn contains_key(&self, name: &str) -> (has: bool)
        ensures
            has == self@.contains_key(name@),
    {
        let key = crate::text::chars_of(name);
        let at = self.find(&key);
        proof {
            if let Some(i) = at {
                assert(self.order()[i as int] == name@);
            }
        }
        at.is_some()
    }

    /// The task called `name`, if there is one.
    pub fn get(&self, name: &str) -> (found: Option<&Task>)
        ensures
            match found {
                Some(task) => self@.contains_key(name@) && task@ == self@[name@],
                None => !self@.contains_key(name@),
            },
    {
        let key = crate::text::chars_of(name);
        match self.find(&key) {
            Some(i) => {
                proof {
                    use_type_invariant(self);
                    self.lemma_order();
                    assert(self.order()[i as int] == name@);
                    assert(self.listed()[i as int] == self.entries[i as int].task@);
                }
                Some(&self.entries[i].task)
            },
            None => None,
        }
    }

    /// Puts `task` under `name`. A task that had the name is replaced and
    /// the name keeps its place; a new name comes last.
    pub fn insert(&mut self, name: String, task: Task)
        ensures
            final(self)@ == old(self)@.insert(name@, task@),
            old(self)@.contains_key(name@) ==> final(self).order() == old(self).order(),
            !old(self)@.contains_key(name@) ==> final(self).order() == old(self).order().push(
                name@,
            ),
    {
        proof {
            use_type_invariant(&*self);
            self.lemma_order();
        }
        let key = crate::text::chars_of(name.as_str());
        let ghost before = *self;
        let at = self.find(&key);
        let mut entries: Vec<Entry> = Vec::new();
        core::mem::swap(&mut self.entries, &mut entries);
        match at {
            Some(i) => {
                proof {
                    assert(before.order()[i as int] == name@);
                }
                entries.set(i, Entry { name, task });
                core::mem::swap(&mut self.entries, &mut entries);
                proof {
                    assert(self.order() =~= before.order());
                    assert(self.listed() =~= before.listed().update(i as int, task@));
                    self.lemma_order();
                    before.lemma_order();
                    let want = before@.insert(name@, task@);
                    assert(self@.dom() =~= want.dom());
                    assert forall|k: Seq<char>| self@.dom().contains(k) implies self@[k]
                        == want[k] by {
                        let j = position(self.order(), k);
                        assert(self.order()[j] == k);
                        assert(self@[self.order()[j]] == self.listed()[j]);
                        assert(before@[before.order()[j]] == before.listed()[j]);
                    }
                    assert(self@ =~= want);
                }
            },
            None => {
                entries.push(Entry { name, task });
                proof {
                    assert forall|i: int, j: int| 0 <= i < j < entries.len() implies entries[i].name@
                        != entries[j].name@ by {
                        if j == before.entries.len() {
                            assert(before.order()[i] == before.entries[i].name@);
                            assert(before.order().to_set().contains(before.order()[i]));
                        }
                    }
                }
                core::mem::swap(&mut self.entries, &mut entries);
                proof {
                    assert(self.order() =~= before.order().push(name@));
                    assert(self.listed() =~= before.listed().push(task@));
                    self.lemma_order();
                    before.lemma_order();
                    let want = before@.insert(name@, task@);
                    assert forall|k: Seq<char>| self@.dom().contains(k) == want.dom().contains(
                        k,
                    ) by {
                        if self.order().contains(k) {
                            let j = position(self.order(), k);
                            assert(self.order()[j] == k);
                            if j < before.order().len() {
                                assert(before.order()[j] == k);
                            }
                        }
                        if before.order().contains(k) {
                            let j = position(before.order(), k);
                            assert(self.order()[j] == k);
                        }
                        if k == name@ {
                            assert(self.order()[before.order().len() as int] == k);
                        }
                    }
                    assert(self@.dom() =~= want.dom());
                    assert forall|k: Seq<char>| self@.dom().contains(k) implies self@[k]
                        == want[k] by {
                        let j = position(self.order(), k);
                        assert(self.order()[j] == k);
                        assert(self@[self.order()[j]] == self.listed()[j]);
                        if j < before.order().len() {
                            assert(before.order()[j] == k);
                            assert(before@[before.order()[j]] == before.listed()[j]);
                        }
                    }
                    assert(self@ =~= want);
                }
            },
        }
    }

    /// The task names, in the order in which they first came.
    pub fn names(&self) -> (out: Vec<String>)
        ensures
            texts(out@) == self.order(),
            texts(out@).no_duplicates(),
            texts(out@).to_set() == self@.dom(),
    {
        proof {
            use_type_invariant(self);
            self.lemma_order();
        }
        let mut out: Vec<String> = Vec::new();
        let mut i: usize = 0;
        while i < self.entries.len()
            invariant
                i <= self.entries.len(),
                out.len() == i,
                forall|k: int| 0 <= k < i ==> out@[k]@ == self.entries[k].name@,
            decreases self.entries.len() - i,
        {
            out.push(self.entries[i].name.clone());
            i += 1;
        }
        assert(texts(out@) =~= self.order());
        out
    }
}

impl View for TaskMap {
    type V = Map<Seq<char>, TaskView>;

    closed spec fn view(&self) -> Map<Seq<char>, TaskView> {
        Map::new(
            |k: Seq<char>| self.order().contains(k),
            |k: Seq<char>| self.listed()[position(self.order(), k)],
        )
    }
}

impl Clone for TaskMap {
    fn clone(&self) -> (out: Self)
        ensures
            out@ == self@,
            out.order() == self.order(),
    {
        proof {
            use_type_invariant(self);
        }
        let mut entries: Vec<Entry> = Vec::new();
        let mut i: usize = 0;
        while i < self.entries.len()
            invariant
                i <= self.entries.len(),
                entries.len() == i,
                forall|k: int|
                    0 <= k < i ==> entries@[k].name@ == self.entries[k].name@ && entries@[k].task@
                        == self.entries[k].task@,
            decreases self.entries.len() - i,
        {
            entries.push(Entry { name: self.entries[i].name.clone(), task: self.entries[i].task.clone() });
            i += 1;
        }
        let out = TaskMap { entries };
        proof {
            assert(out.order() =~= self.order());
            assert(out.listed() =~= self.listed());
            assert(out@ =~= self@);
        }
        out
    }
}

/// The texts of `v`, as strings.
pub fn strings_of(v: &Vec<Vec<char>>) -> (out: Vec<String>)
    ensures
        texts(out@) == crate::text::views(v@),
{
    let mut out: Vec<String> = Vec::new();
    let mut i: usize = 0;
    while i < v.len()
        invariant
            i <= v.len(),
            out.len() == i,
            forall|k: int| 0 <= k < i ==> out@[k]@ == v@[k]@,
        decreases v.len() - i,
    {
        out.push(crate::text::string_of(&v[i]));
        i += 1;
    }
    assert(texts(out@) =~= crate::text::views(v@));
    out
}

impl Default for TaskMap {
    fn default() -> (out: Self)
        ensures
            out@ == Map::<Seq<char>, TaskView>::empty(),
    {
        TaskMap::new()
    }
}

/// What the pairs of `v` say.
pub open spec fn pairs(v: Seq<(String, String)>) -> Seq<(Seq<char>, Seq<char>)> {
    Seq::new(v.len(), |i: int| (v[i].0@, v[i].1@))
}

/// What a file says of its sub-projects.
pub enum IncludesView {
    Absent,
    List(Seq<Seq<char>>),
    Named(Seq<(Seq<char>, Seq<char>)>),
}

/// The sub-projects that a file names.
#[derive(Debug)]
pub enum Includes {
    /// None are named.
    Absent,
    /// Paths; each is known by an alias taken from its last component.
    List(Vec<String>),
    /// Pairs of an alias and the path it stands for.
    Named(Vec<(String, String)>),
}

impl View for Includes {
    type V = IncludesView;

    open spec fn view(&self) -> IncludesView {
        match self {
            Includes::Absent => IncludesView::Absent,
            Includes::List(paths) => IncludesView::List(texts(paths@)),
            Includes::Named(named) => IncludesView::Named(pairs(named@)),
        }
    }
}

/// The last component of `path`, where it has one.
///
/// This is `Path::file_name`, with its result as text. What counts as a
/// component depends on the platform; whatever it is, it is a part of
/// `path`.
#[verifier::external_body]
fn last_component(path: &str) -> (name: Option<String>)
    ensures
        name matches Some(n) ==> is_part_of(n@, path@),
{
    let name = std::path::Path::new(path).file_name()?;
    Some(name.to_str()?.to_owned())
}

/// The alias of the sub-project at `path`, whose last component is
/// `component`: that component, or the whole path where it has none.
pub fn alias_for(component: Option<String>, path: &str) -> (alias: String)
    ensures
        alias@ == match component {
            Some(name) => name@,
            None => path@,
        },
{
    match component {
        Some(name) => name,
        None => path.to_owned(),
    }
}

impl Includes {
    /// Whether no sub-project is named.
    pub fn is_empty(&self) -> (empty: bool)
        ensures
            empty == match self@ {
                IncludesView::Absent => true,
                IncludesView::List(paths) => paths.len() == 0,
                IncludesView::Named(named) => named.len() == 0,
            },
    {
        match self {
            Includes::Absent => true,
            Includes::List(paths) => paths.len() == 0,
            Includes::Named(named) => named.len() == 0,
        }
    }

    /// The sub-projects, each as its alias and its path, in order. A listed
    /// path has an alias that is a part of it: its last component, or the
    /// path itself where it has none.
    pub fn iter(&self) -> (out: Vec<(String, String)>)
        ensures
            match self@ {
                IncludesView::Absent => out@.len() == 0,
                IncludesView::List(paths) => out@.len() == paths.len() && forall|i: int|
                    0 <= i < paths.len() ==> (#[trigger] pairs(out@)[i]).1 == paths[i]
                        && is_part_of(pairs(out@)[i].0, paths[i]),
                IncludesView::Named(named) => pairs(out@) == named,
            },
    {
        let mut out: Vec<(String, String)> = Vec::new();
        match self {
            Includes::Absent => {},
            Includes::List(paths) => {
                let mut i: usize = 0;
                while i < paths.len()
                    invariant
                        i <= paths.len(),
                        out.len() == i,
                        forall|k: int|
                            0 <= k < i ==> (#[trigger] pairs(out@)[k]).1 == paths@[k]@
                                && is_part_of(pairs(out@)[k].0, paths@[k]@),
                    decreases paths.len() - i,
                {
                    let path = paths[i].clone();
                    let alias = alias_for(last_component(path.as_str()), path.as_str());
                    proof {
                        assert(path@.subrange(0int, 0int + path@.len()) =~= path@);
                        assert(is_part_of(alias@, path@));
                    }
                    let ghost before = pairs(out@);
                    out.push((alias, path));
                    assert forall|k: int| 0 <= k < i + 1 implies (#[trigger] pairs(out@)[k]).1
                        == paths@[k]@ && is_part_of(pairs(out@)[k].0, paths@[k]@) by {
                        if k < i {
                            assert(pairs(out@)[k] == before[k]);
                        }
                    }
                    i += 1;
                }
            },
            Includes::Named(named) => {
                let mut i: usize = 0;
                while i < named.len()
                    invariant
                        i <= named.len(),
                        out.len() == i,
                        forall|k: int| 0 <= k < i ==> pairs(out@)[k] == pairs(named@)[k],
                    decreases named.len() - i,
                {
                    let ghost before = pairs(out@);
                    out.push((named[i].0.clone(), named[i].1.clone()));
                    assert forall|k: int| 0 <= k < i + 1 implies pairs(out@)[k] == pairs(
                        named@,
                    )[k] by {
                        if k < i {
                            assert(pairs(out@)[k] == before[k]);
                        }
                    }
                    i += 1;
                }
                assert(pairs(out@) =~= pairs(named@));
            },
        }
        out
    }
}

impl Clone for Includes {
    fn clone(&self) -> (out: Self)
        ensures
            out@ == self@,
    {
        match self {
            Includes::Absent => Includes::Absent,
            Includes::List(paths) => Includes::List(clone_strings(paths)),
            Includes::Named(_) => {
                let out = Includes::Named(self.iter());
                out
            },
        }
    }
}

impl Default for Includes {
    fn default() -> (out: Self)
        ensures
            out@ == IncludesView::Absent,
    {
        Includes::Absent
    }
}

/// What one task-definition file declares.
#[derive(Debug)]
pub struct Kylefile {
    /// The project's name; may be empty.
    pub name: String,
    /// The sub-projects that the file names.
    pub includes: Includes,
    /// The tasks by name.
    pub tasks: TaskMap,
}

impl Clone for Kylefile {
    fn clone(&self) -> (out: Self)
        ensures
            out.name@ == self.name@,
            out.includes@ == self.includes@,
            out.tasks@ == self.tasks@,
    {
        Kylefile {
            name: self.name.clone(),
            includes: self.includes.clone(),
            tasks: self.tasks.clone(),
        }
    }
}

impl Default for Kylefile {
    fn default() -> (out: Self)
        ensures
            out.name@.len() == 0,
            out.includes@ == IncludesView::Absent,
            out.tasks@ == Map::<Seq<char>, TaskView>::empty(),
    {
        Kylefile { name: String::new(), includes: Includes::Absent, tasks: TaskMap::new() }
    }
}

} // verus!
