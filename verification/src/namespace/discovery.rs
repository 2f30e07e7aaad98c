//! Finding the namespaces of a project.
//!
//! Walking the directory tree is left to the caller. What is decided here is
//! which directories are passed by, which files make their directory a
//! namespace, under which alias, and which of several files of one directory
//! counts.

use crate::text::{chars_of, is_text, same_text, string_of};
use std::path::PathBuf;
use vstd::prelude::*;

verus! {

/// The format of the file that makes a directory a namespace.
#[derive(Debug, Clone, Copy, PartialEq, Eq)]
pub enum FileType {
    Kylefile,
    Makefile,
    Justfile,
}

/// A directory with task definitions of its own.
#[derive(Debug)]
pub struct DiscoveredNamespace {
    /// The directory's path below the root, with `/` between its parts.
    pub alias: String,
    /// The directory.
    pub path: PathBuf,
    /// The format of its task-definition file.
    pub file_type: FileType,
}

/// The names of the directories that are not searched: those of version
/// control, of dependencies and of build output.
pub open spec fn skipped_dirs() -> Seq<Seq<char>> {
    seq![
        "node_modules"@,
        "target"@,
        ".git"@,
        ".hg"@,
        ".svn"@,
        "vendor"@,
        "__pycache__"@,
        ".venv"@,
        "venv"@,
        "dist"@,
        "build"@,
        ".next"@,
        ".nuxt"@,
    ]
}

/// The format of the task-definition file called `name`: a Makefile or a
/// justfile by its name, else a Kylefile.
pub open spec fn file_type_of(name: Seq<char>) -> FileType {
    if crate::config::loader::is_makefile(name) {
        FileType::Makefile
    } else if crate::config::loader::is_justfile(name) {
        FileType::Justfile
    } else {
        FileType::Kylefile
    }
}

/// The precedence of a format among the files of one directory; less is
/// first.
pub open spec fn rank(t: FileType) -> int {
    match t {
        FileType::Kylefile => 0,
        FileType::Makefile => 1,
        FileType::Justfile => 2,
    }
}

/// `s` with `/` for each `\`.
pub open spec fn slashed(s: Seq<char>) -> Seq<char> {
    Seq::new(s.len(), |i: int| if s[i] == '\\' { '/' } else { s[i] })
}

/// Whether `a` comes before `b` in the order of strings: at the first
/// character in which they differ `a` has the lesser, or `a` ends there and
/// `b` goes on.
pub open spec fn before(a: Seq<char>, b: Seq<char>) -> bool
    decreases a.len(),
{
    if b.len() == 0 {
        false
    } else if a.len() == 0 {
        true
    } else if a[0] != b[0] {
        a[0] < b[0]
    } else {
        before(a.drop_first(), b.drop_first())
    }
}

/// Whether the namespaces stand in the order of their aliases, each alias
/// once.
pub open spec fn sorted(v: Seq<DiscoveredNamespace>) -> bool {
    forall|a: int, b: int| 0 <= a < b < v.len() ==> before(#[trigger] v[a].alias@, #[trigger] v[b].alias@)
}

/// Whether `found[i]` counts for its alias among `found` from index `from`
/// on: none there with that alias has a format of higher precedence, and
/// none before it one of the same.
pub open spec fn wins_from(found: Seq<DiscoveredNamespace>, from: int, i: int) -> bool {
    &&& from <= i < found.len()
    &&& forall|j: int|
        from <= j < found.len() && (#[trigger] found[j]).alias@ == found[i].alias@ ==> rank(
            found[i].file_type,
        ) < rank(found[j].file_type) || (rank(found[i].file_type) == rank(found[j].file_type)
            && i <= j)
}

/// Whether `found[i]` counts for its alias among `found`.
pub open spec fn wins(found: Seq<DiscoveredNamespace>, i: int) -> bool {
    wins_from(found, 0, i)
}

/// Whether `ns` is one of `found` that counts for its alias.
pub open spec fn is_winner(found: Seq<DiscoveredNamespace>, ns: DiscoveredNamespace) -> bool {
    exists|i: int| wins(found, i) && found[i] == ns
}

/// Whether one of `v` bears the alias `alias`.
pub open spec fn has_alias(v: Seq<DiscoveredNamespace>, alias: Seq<char>) -> bool {
    exists|k: int| 0 <= k < v.len() && (#[trigger] v[k]).alias@ == alias
}

/// No string comes before itself.
pub proof fn lemma_before_irreflexive(a: Seq<char>)
    ensures
        !before(a, a),
    decreases a.len(),
{
    if a.len() > 0 {
        lemma_before_irreflexive(a.drop_first());
    }
}

/// Of two different strings one comes before the other.
pub proof fn lemma_before_total(a: Seq<char>, b: Seq<char>)
    requires
        a != b,
    ensures
        before(a, b) || before(b, a),
    decreases a.len(),
{
    if a.len() > 0 && b.len() > 0 && a[0] == b[0] {
        if a.drop_first() == b.drop_first() {
            assert(a =~= seq![a[0]] + a.drop_first());
            assert(b =~= seq![b[0]] + b.drop_first());
        }
        lemma_before_total(a.drop_first(), b.drop_first());
    } else if a.len() == 0 && b.len() == 0 {
        assert(a =~= b);
    }
}

/// What comes before a string comes before all that it comes before.
pub proof fn lemma_before_transitive(a: Seq<char>, b: Seq<char>, c: Seq<char>)
    requires
        before(a, b),
        before(b, c),
    ensures
        before(a, c),
    decreases a.len(),
{
    if a.len() > 0 && a[0] == b[0] && b[0] == c[0] {
        lemma_before_transitive(a.drop_first(), b.drop_first(), c.drop_first());
    }
}

/// Namespaces that stand in the order of their aliases bear each alias
/// once.
pub proof fn lemma_sorted_distinct(v: Seq<DiscoveredNamespace>, a: int, b: int)
    requires
        sorted(v),
        0 <= a < v.len(),
        0 <= b < v.len(),
        a != b,
    ensures
        v[a].alias@ != v[b].alias@,
{
    lemma_before_irreflexive(v[a].alias@);
    if a < b {
        assert(before(v[a].alias@, v[b].alias@));
    } else {
        assert(before(v[b].alias@, v[a].alias@));
    }
}

/// Tests whether `a` comes before `b` in the order of strings.
pub fn precedes(a: &Vec<char>, b: &Vec<char>) -> (yes: bool)
    ensures
        yes == before(a@, b@),
{
    let mut i: usize = 0;
    assert(a@.skip(0) =~= a@);
    assert(b@.skip(0) =~= b@);
    while i < a.len() && i < b.len() && a[i] == b[i]
        invariant
            i <= a.len(),
            i <= b.len(),
            before(a@, b@) == before(a@.skip(i as int), b@.skip(i as int)),
        decreases a.len() - i,
    {
        proof {
            let x = a@.skip(i as int);
            let y = b@.skip(i as int);
            assert(x[0] == a@[i as int]);
            assert(y[0] == b@[i as int]);
            assert(x.drop_first() =~= a@.skip(i + 1));
            assert(y.drop_first() =~= b@.skip(i + 1));
        }
        i += 1;
    }
    proof {
        let x = a@.skip(i as int);
        let y = b@.skip(i as int);
        if i < a.len() {
            assert(x[0] == a@[i as int]);
        }
        if i < b.len() {
            assert(y[0] == b@[i as int]);
        }
    }
    if i == b.len() {
        false
    } else if i == a.len() {
        true
    } else {
        a[i] < b[i]
    }
}

/// Tests whether a directory called `name` is passed by.
pub fn is_skipped_dir(name: &str) -> (yes: bool)
    ensures
        yes == skipped_dirs().contains(name@),
{
    let text = chars_of(name);
    let mut names: Vec<&'static str> = Vec::new();
    names.push("node_modules");
    names.push("target");
    names.push(".git");
    names.push(".hg");
    names.push(".svn");
    names.push("vendor");
    names.push("__pycache__");
    names.push(".venv");
    names.push("venv");
    names.push("dist");
    names.push("build");
    names.push(".next");
    names.push(".nuxt");
    let ghost all = Seq::new(names@.len(), |i: int| names@[i]@);
    assert(all =~= skipped_dirs());
    let mut i: usize = 0;
    while i < names.len()
        invariant
            i <= names.len(),
            all == Seq::new(names@.len(), |i: int| names@[i]@),
            all == skipped_dirs(),
            text@ == name@,
            forall|k: int| 0 <= k < i ==> all[k] != text@,
        decreases names.len() - i,
    {
        if is_text(&text, names[i]) {
            assert(all[i as int] == text@);
            return true;
        }
        i += 1;
    }
    false
}

/// Tests whether a file called `name` holds task definitions.
pub fn is_project_file(name: &str) -> (yes: bool)
    ensures
        yes == crate::config::loader::file_names().contains(name@),
{
    let names = crate::config::loader::filenames();
    let text = chars_of(name);
    let ghost all = crate::config::kylefile::texts(names@);
    let mut i: usize = 0;
    while i < names.len()
        invariant
            i <= names.len(),
            all == crate::config::kylefile::texts(names@),
            all == crate::config::loader::file_names(),
            text@ == name@,
            forall|k: int| 0 <= k < i ==> all[k] != text@,
        decreases names.len() - i,
    {
        if is_text(&text, names[i].as_str()) {
            assert(all[i as int] == text@);
            return true;
        }
        i += 1;
    }
    false
}

/// The format of the task-definition file called `filename`.
pub fn detect_file_type(filename: &str) -> (out: FileType)
    ensures
        out == file_type_of(filename@),
{
    let name = chars_of(filename);
    if is_text(&name, "Makefile") || is_text(&name, "makefile") || is_text(&name, "GNUmakefile") {
        FileType::Makefile
    } else if is_text(&name, "justfile") || is_text(&name, "Justfile") {
        FileType::Justfile
    } else {
        FileType::Kylefile
    }
}

/// What a list of namespaces adds to the alias of one with a file of the
/// format `t`: nothing for a Kylefile, else the format in brackets.
pub open spec fn indicator_of(t: FileType) -> Seq<char> {
    match t {
        FileType::Kylefile => ""@,
        FileType::Makefile => " (Makefile)"@,
        FileType::Justfile => " (justfile)"@,
    }
}

/// What a list of namespaces adds to the alias of one with a file of the
/// format `t`.
pub fn type_indicator(t: FileType) -> (out: &'static str)
    ensures
        out@ == indicator_of(t),
{
    match t {
        FileType::Kylefile => "",
        FileType::Makefile => " (Makefile)",
        FileType::Justfile => " (justfile)",
    }
}

/// The alias of the directory whose path below the root is `relative`.
pub fn alias_of(relative: &str) -> (alias: String)
    ensures
        alias@ == slashed(relative@),
{
    let text = chars_of(relative);
    let mut out: Vec<char> = Vec::new();
    let mut i: usize = 0;
    while i < text.len()
        invariant
            i <= text.len(),
            out.len() == i,
            forall|k: int| 0 <= k < i ==> out@[k] == slashed(text@)[k],
        decreases text.len() - i,
    {
        if text[i] == '\\' {
            out.push('/');
        } else {
            out.push(text[i]);
        }
        i += 1;
    }
    assert(out@ =~= slashed(text@));
    string_of(&out)
}

/// The namespace that the file called `file_name` makes of its directory
/// `path`, whose path below the root is `relative`. A file that holds no
/// task definitions makes none, and neither does one in the root itself.
pub fn candidate(relative: &str, file_name: &str, path: PathBuf) -> (out: Option<
    DiscoveredNamespace,
>)
    ensures
        match out {
            Some(ns) => crate::config::loader::file_names().contains(file_name@) && relative@.len()
                > 0 && ns.alias@ == slashed(relative@) && ns.path == path && ns.file_type
                == file_type_of(file_name@),
            None => !crate::config::loader::file_names().contains(file_name@) || relative@.len()
                == 0,
        },
{
    if !is_project_file(file_name) || relative.is_empty() {
        None
    } else {
        Some(
            DiscoveredNamespace {
                alias: alias_of(relative),
                path,
                file_type: detect_file_type(file_name),
            },
        )
    }
}

/// The precedence of the format `t`.
fn rank_of(t: FileType) -> (out: u8)
    ensures
        out == rank(t),
{
    match t {
        FileType::Kylefile => 0,
        FileType::Makefile => 1,
        FileType::Justfile => 2,
    }
}

/// The namespaces of a project, from the task-definition files `found` in
/// the order in which the search came upon them. They stand in the order of
/// their aliases, and each alias stands once: of the files of one directory
/// the one whose format has precedence counts, a Kylefile before a Makefile
/// and that before a justfile, and of several of one format the first.
pub fn discover_namespaces(found: Vec<DiscoveredNamespace>) -> (out: Vec<DiscoveredNamespace>)
    ensures
        sorted(out@),
        forall|k: int| 0 <= k < out@.len() ==> is_winner(found@, #[trigger] out@[k]),
        forall|i: int| 0 <= i < found@.len() ==> has_alias(out@, (#[trigger] found@[i]).alias@),
{
    let mut rest = found;
    let mut out: Vec<DiscoveredNamespace> = Vec::new();
    let ghost mut origin: Seq<int> = Seq::empty();
    let ghost mut place: Seq<int> = Seq::new(found@.len(), |i: int| 0int);
    while rest.len() > 0
        invariant
            rest@.len() <= found@.len(),
            rest@ == found@.take(rest@.len() as int),
            sorted(out@),
            origin.len() == out@.len(),
            place.len() == found@.len(),
            forall|k: int|
                0 <= k < out@.len() ==> wins_from(found@, rest@.len() as int, #[trigger] origin[k])
                    && out@[k] == found@[origin[k]],
            forall|i: int|
                rest@.len() <= i < found@.len() ==> 0 <= #[trigger] place[i] < out@.len()
                    && out@[place[i]].alias@ == found@[i].alias@,
        decreases rest.len(),
    {
        let ghost n = rest@.len() as int;
        let ghost old_out = out@;
        let ghost old_origin = origin;
        let ghost old_place = place;
        let entry = rest.pop().unwrap();
        proof {
            assert(entry == found@[n - 1]);
            assert(rest@ =~= found@.take(n - 1));
        }
        let alias = chars_of(entry.alias.as_str());
        let mut p: usize = 0;
        while p < out.len() && precedes(&chars_of(out[p].alias.as_str()), &alias)
            invariant
                p <= out.len(),
                alias@ == entry.alias@,
                forall|k: int| 0 <= k < p ==> before(#[trigger] out@[k].alias@, alias@),
            decreases out.len() - p,
        {
            p += 1;
        }
        let same = p < out.len() && same_text(&chars_of(out[p].alias.as_str()), &alias);
        proof {
            // What stands from `p` on comes after the entry, but for `p`
            // itself where it bears the same alias.
            assert forall|k: int| p <= k < old_out.len() && !(k == p && same) implies before(
                alias@,
                #[trigger] old_out[k].alias@,
            ) by {
                if old_out[p as int].alias@ != alias@ {
                    lemma_before_total(old_out[p as int].alias@, alias@);
                }
                if k > p {
                    if same {
                        assert(before(old_out[p as int].alias@, old_out[k].alias@));
                    } else {
                        lemma_before_transitive(
                            alias@,
                            old_out[p as int].alias@,
                            old_out[k].alias@,
                        );
                    }
                }
            }
            // So no other place bears the entry's alias.
            assert forall|k: int| 0 <= k < old_out.len() && !(k == p && same) implies (
            #[trigger] old_out[k]).alias@ != alias@ by {
                lemma_before_irreflexive(alias@);
            }
        }
        if same {
            if rank_of(entry.file_type) <= rank_of(out[p].file_type) {
                out.set(p, entry);
                proof {
                    origin = old_origin.update(p as int, n - 1);
                    assert forall|a: int, b: int| 0 <= a < b < out@.len() implies before(
                        #[trigger] out@[a].alias@,
                        #[trigger] out@[b].alias@,
                    ) by {
                        assert(before(old_out[a].alias@, old_out[b].alias@));
                    }
                    assert forall|k: int| 0 <= k < out@.len() implies wins_from(
                        found@,
                        n - 1,
                        #[trigger] origin[k],
                    ) && out@[k] == found@[origin[k]] by {
                        if k != p {
                            assert(wins_from(found@, n, old_origin[k]));
                            assert(old_out[k] == found@[old_origin[k]]);
                        } else {
                            assert(wins_from(found@, n, old_origin[p as int]));
                        }
                    }
                }
            } else {
                proof {
                    assert forall|k: int| 0 <= k < out@.len() implies wins_from(
                        found@,
                        n - 1,
                        #[trigger] origin[k],
                    ) && out@[k] == found@[origin[k]] by {
                        assert(wins_from(found@, n, origin[k]));
                    }
                }
            }
            proof {
                place = old_place.update(n - 1, p as int);
                assert forall|i: int| n - 1 <= i < found@.len() implies 0 <= #[trigger] place[i]
                    < out@.len() && out@[place[i]].alias@ == found@[i].alias@ by {
                    if i >= n {
                        assert(place[i] == old_place[i]);
                        assert(old_out[old_place[i]].alias@ == found@[i].alias@);
                    }
                }
            }
        } else {
            out.insert(p, entry);
            proof {
                origin = old_origin.insert(p as int, n - 1);
                place = Seq::new(
                    found@.len(),
                    |i: int|
                        if i == n - 1 {
                            p as int
                        } else if old_place[i] >= p {
                            old_place[i] + 1
                        } else {
                            old_place[i]
                        },
                );
                assert forall|a: int, b: int| 0 <= a < b < out@.len() implies before(
                    #[trigger] out@[a].alias@,
                    #[trigger] out@[b].alias@,
                ) by {
                    let x = if a < p { a } else { a - 1 };
                    let y = if b < p { b } else { b - 1 };
                    if a != p && b != p {
                        assert(before(old_out[x].alias@, old_out[y].alias@));
                    } else if a == p {
                        assert(before(alias@, old_out[y].alias@));
                    }
                }
                assert forall|k: int| 0 <= k < out@.len() implies wins_from(
                    found@,
                    n - 1,
                    #[trigger] origin[k],
                ) && out@[k] == found@[origin[k]] by {
                    if k < p {
                        assert(wins_from(found@, n, old_origin[k]));
                        assert(old_out[k].alias@ != alias@);
                    } else if k > p {
                        assert(wins_from(found@, n, old_origin[k - 1]));
                        assert(old_out[k - 1].alias@ != alias@);
                    } else {
                        assert forall|j: int|
                            n - 1 <= j < found@.len() && (#[trigger] found@[j]).alias@
                                == alias@ implies j == n - 1 by {
                            if j >= n {
                                assert(old_out[old_place[j]].alias@ == found@[j].alias@);
                            }
                        }
                    }
                }
                assert forall|i: int| n - 1 <= i < found@.len() implies 0 <= #[trigger] place[i]
                    < out@.len() && out@[place[i]].alias@ == found@[i].alias@ by {
                    if i >= n {
                        assert(old_out[old_place[i]].alias@ == found@[i].alias@);
                    }
                }
            }
        }
    }
    proof {
        assert forall|k: int| 0 <= k < out@.len() implies is_winner(
            found@,
            #[trigger] out@[k],
        ) by {
            assert(wins(found@, origin[k]) && found@[origin[k]] == out@[k]);
        }
        assert forall|i: int| 0 <= i < found@.len() implies has_alias(
            out@,
            (#[trigger] found@[i]).alias@,
        ) by {
            assert(0 <= place[i] < out@.len() && out@[place[i]].alias@ == found@[i].alias@);
        }
    }
    out
}

} // verus!
