//! Finding a directory's task-definition file and telling its format.
//!
//! Reading files is left to the caller. What is decided here is which of a
//! directory's files is loaded, in which format a file is read, and what a
//! Makefile or a justfile holds.

use crate::config::format::{by_extension, named, Format};
use crate::config::kylefile::{texts, IncludesView, Kylefile};
use crate::config::{justfile, makefile, Error, Fault};
use crate::text::{
    append, chars_of, is_text, lines, lowercase, slice, split_lines, starts_with, string_of,
    to_lower, trim, trimmed,
};
use vstd::prelude::*;

verus! {

/// The format that a loaded file was read in.
#[derive(Debug, Clone, Copy, PartialEq, Eq)]
pub enum Source {
    Kylefile,
    Makefile,
    Justfile,
}

/// The names under which a task-definition file is looked for, in the order
/// of their precedence: the native names, then those of Makefiles, then those
/// of justfiles.
pub open spec fn file_names() -> Seq<Seq<char>> {
    seq![
        "Kylefile"@,
        "Kylefile.yaml"@,
        "Kylefile.yml"@,
        "Kylefile.toml"@,
        "Makefile"@,
        "makefile"@,
        "GNUmakefile"@,
        "justfile"@,
        "Justfile"@,
    ]
}

/// The index of the first of `names` from `from` on that `present` holds, or
/// the number of names.
pub open spec fn first_present(names: Seq<Seq<char>>, present: Seq<Seq<char>>, from: int) -> int
    decreases names.len() - from,
{
    if 0 <= from < names.len() && !present.contains(names[from]) {
        first_present(names, present, from + 1)
    } else {
        from
    }
}

/// The file that is loaded from a directory that holds the files `present`:
/// the first by precedence, if there is one.
pub open spec fn chosen(present: Seq<Seq<char>>) -> Option<Seq<char>> {
    let at = first_present(file_names(), present, 0);
    if at < file_names().len() {
        Some(file_names()[at])
    } else {
        None
    }
}

/// The extension of the file called `name`: what follows its last dot, unless
/// it has none or only one at its start.
pub open spec fn extension(name: Seq<char>) -> Option<Seq<char>> {
    let at = last_dot(name);
    if at <= 0 || name == ".."@ {
        None
    } else {
        Some(name.skip(at + 1))
    }
}

/// The index of the last dot in `name`, or -1.
pub open spec fn last_dot(name: Seq<char>) -> int
    decreases name.len(),
{
    if name.len() == 0 {
        -1
    } else if name.last() == '.' {
        name.len() - 1
    } else {
        last_dot(name.drop_last())
    }
}

/// The format that the header of a file names, in lower case, if `content`
/// begins with one: a first line made of `#`, `kyle:` and the name, with
/// white space around each as one likes.
pub open spec fn header(content: Seq<char>) -> Option<Seq<char>> {
    if lines(content).len() == 0 {
        None
    } else {
        let line = trim(lines(content)[0]);
        if line.len() > 0 && line[0] == '#' {
            let rest = trim(line.skip(1));
            if "kyle:"@.is_prefix_of(rest) {
                Some(to_lower(trim(rest.skip("kyle:"@.len() as int))))
            } else {
                None
            }
        } else {
            None
        }
    }
}

/// The name of the format of a file without extension: the one that its
/// header names, else `default_format`.
pub open spec fn header_format(content: Seq<char>, default_format: Seq<char>) -> Seq<char> {
    match header(content) {
        Some(name) => name,
        None => default_format,
    }
}

/// Whether a file of this name is a Makefile.
pub open spec fn is_makefile(name: Seq<char>) -> bool {
    name == "Makefile"@ || name == "makefile"@ || name == "GNUmakefile"@
}

/// Whether a file of this name is a justfile.
pub open spec fn is_justfile(name: Seq<char>) -> bool {
    name == "justfile"@ || name == "Justfile"@
}

/// What is known of a file once its name and its text are looked at.
pub enum Loaded {
    /// The file's tasks, and the format they were read in.
    Tasks(Kylefile, Source),
    /// The file is a Kylefile in this format, which is still to be read.
    Native(Format),
}

/// What loading the file called `name` with the text `content` gives.
pub enum Plan {
    Makefile,
    Justfile,
    Native(Format),
    Fails(Fault),
}

/// How the file called `name` with the text `content` is loaded. A Makefile
/// or a justfile is known by its name. Any other file is a Kylefile: its
/// extension tells the format, and where it has none, its header or else
/// `default_format` does.
pub open spec fn plan(name: Seq<char>, content: Seq<char>, default_format: Seq<char>) -> Plan {
    if is_makefile(name) {
        Plan::Makefile
    } else if is_justfile(name) {
        Plan::Justfile
    } else {
        match extension(name) {
            Some(ext) => match by_extension("."@ + ext) {
                Some(f) => Plan::Native(f),
                None => Plan::Fails(Fault::UnsupportedExtension("."@ + ext)),
            },
            None => match named(header_format(content, default_format)) {
                Some(f) => Plan::Native(f),
                None => Plan::Fails(Fault::UnknownFormat(header_format(content, default_format))),
            },
        }
    }
}

/// What lies between `from` and the first name that is present is not
/// present.
proof fn lemma_first_present(names: Seq<Seq<char>>, present: Seq<Seq<char>>, from: int)
    requires
        0 <= from <= names.len(),
    ensures
        from <= first_present(names, present, from) <= names.len(),
        forall|j: int|
            from <= j < first_present(names, present, from) ==> !present.contains(
                #[trigger] names[j],
            ),
        first_present(names, present, from) < names.len() ==> present.contains(
            names[first_present(names, present, from)],
        ),
    decreases names.len() - from,
{
    if from < names.len() && !present.contains(names[from]) {
        lemma_first_present(names, present, from + 1);
    }
}

/// The file that is loaded is present and no name before it is; none is
/// loaded only where none of the names is present.
pub proof fn lemma_chosen(present: Seq<Seq<char>>)
    ensures
        match chosen(present) {
            Some(name) => present.contains(name) && exists|k: int|
                0 <= k < file_names().len() && #[trigger] file_names()[k] == name && forall|j: int|
                    0 <= j < k ==> !present.contains(#[trigger] file_names()[j]),
            None => forall|j: int|
                0 <= j < file_names().len() ==> !present.contains(#[trigger] file_names()[j]),
        },
{
    lemma_first_present(file_names(), present, 0);
    let at = first_present(file_names(), present, 0);
    if at < file_names().len() {
        assert(file_names()[at] == chosen(present)->0);
    }
}

/// A Kylefile has precedence: where the directory holds a file with one
/// of the four native names, such a file is loaded, whatever else is there.
pub proof fn lemma_native_first(present: Seq<Seq<char>>, k: int)
    requires
        0 <= k < 4,
        present.contains(file_names()[k]),
    ensures
        exists|i: int| 0 <= i < 4 && chosen(present) == Some(#[trigger] file_names()[i]),
{
    lemma_first_present(file_names(), present, 0);
    let at = first_present(file_names(), present, 0);
    assert(at <= k);
    assert(chosen(present) == Some(file_names()[at]));
}

/// The names under which a task-definition file is looked for, by
/// precedence.
pub fn filenames() -> (out: Vec<String>)
    ensures
        texts(out@) == file_names(),
{
    let mut out: Vec<String> = Vec::new();
    out.push("Kylefile".to_owned());
    out.push("Kylefile.yaml".to_owned());
    out.push("Kylefile.yml".to_owned());
    out.push("Kylefile.toml".to_owned());
    out.push("Makefile".to_owned());
    out.push("makefile".to_owned());
    out.push("GNUmakefile".to_owned());
    out.push("justfile".to_owned());
    out.push("Justfile".to_owned());
    assert(texts(out@) =~= file_names());
    out
}

/// Tests whether `names` holds `name`.
fn holds(names: &Vec<String>, name: &String) -> (yes: bool)
    ensures
        yes == texts(names@).contains(name@),
{
    let mut i: usize = 0;
    while i < names.len()
        invariant
            i <= names.len(),
            forall|k: int| 0 <= k < i ==> texts(names@)[k] != name@,
        decreases names.len() - i,
    {
        if names[i] == *name {
            assert(texts(names@)[i as int] == name@);
            return true;
        }
        i += 1;
    }
    false
}

/// Picks the task-definition file of a directory that holds the files
/// `present`: the first by precedence. Where it holds none of them, the
/// failure lists every name that was looked for.
pub fn load_from_dir(present: &Vec<String>) -> (out: Result<String, Error>)
    ensures
        match out {
            Ok(name) => chosen(texts(present@)) == Some(name@),
            Err(e) => chosen(texts(present@)) is None && e@ == Fault::NotFound(file_names()),
        },
{
    let names = filenames();
    let mut i: usize = 0;
    while i < names.len()
        invariant
            i <= names.len(),
            texts(names@) == file_names(),
            first_present(file_names(), texts(present@), 0) == first_present(
                file_names(),
                texts(present@),
                i as int,
            ),
        decreases names.len() - i,
    {
        assert(texts(names@)[i as int] == names@[i as int]@);
        if holds(present, &names[i]) {
            return Ok(names[i].clone());
        }
        i += 1;
    }
    Err(Error::NotFound(names))
}

/// Picks the file to load: the one at `path`, or where `path` is empty the
/// task-definition file of the current directory, which holds the files
/// `present`.
pub fn load(path: &str, present: &Vec<String>) -> (out: Result<String, Error>)
    ensures
        path@.len() > 0 ==> (out matches Ok(name) && name@ == path@),
        path@.len() == 0 ==> match out {
            Ok(name) => chosen(texts(present@)) == Some(name@),
            Err(e) => chosen(texts(present@)) is None && e@ == Fault::NotFound(file_names()),
        },
{
    if path.is_empty() {
        load_from_dir(present)
    } else {
        Ok(path.to_owned())
    }
}

/// The last dot stands at `at` where one stands there and none after.
proof fn lemma_last_dot(name: Seq<char>, at: int)
    requires
        -1 <= at < name.len(),
        at >= 0 ==> name[at] == '.',
        forall|k: int| at < k < name.len() ==> #[trigger] name[k] != '.',
    ensures
        last_dot(name) == at,
    decreases name.len(),
{
    if name.len() > 0 && at < name.len() - 1 {
        let t = name.drop_last();
        assert(name[name.len() - 1] != '.');
        assert forall|k: int| at < k < t.len() implies #[trigger] t[k] != '.' by {
            assert(t[k] == name[k]);
        }
        if at >= 0 {
            assert(t[at] == name[at]);
        }
        lemma_last_dot(t, at);
    }
}

/// The extension of the file called `name`, if it has one.
pub fn extension_of(name: &Vec<char>) -> (out: Option<Vec<char>>)
    ensures
        match out {
            Some(ext) => extension(name@) == Some(ext@),
            None => extension(name@) is None,
        },
{
    let mut end: usize = name.len();
    while end > 0 && name[end - 1] != '.'
        invariant
            end <= name.len(),
            forall|k: int| end <= k < name.len() ==> #[trigger] name@[k] != '.',
        decreases end,
    {
        end -= 1;
    }
    proof {
        lemma_last_dot(name@, end - 1);
    }
    if end <= 1 || is_text(name, "..") {
        None
    } else {
        let ext = slice(name, end, name.len());
        assert(ext@ =~= name@.skip(end as int));
        Some(ext)
    }
}

/// The format that the header of a file names, if `content` begins with
/// one.
fn read_header(content: &str) -> (out: Option<Vec<char>>)
    ensures
        match out {
            Some(name) => header(content@) == Some(name@),
            None => header(content@) is None,
        },
{
    let all = split_lines(&chars_of(content));
    if all.len() == 0 {
        return None;
    }
    let line = trimmed(&all[0]);
    if line.len() == 0 || line[0] != '#' {
        return None;
    }
    let after = slice(&line, 1, line.len());
    assert(after@ =~= line@.skip(1));
    let rest = trimmed(&after);
    let key = chars_of("kyle:");
    if !starts_with(&rest, &key) {
        return None;
    }
    let tail = slice(&rest, key.len(), rest.len());
    assert(tail@ =~= rest@.skip(key.len() as int));
    Some(lowercase(&trimmed(&tail)))
}

/// The name of the format of a file without extension: the one that its
/// header names, in lower case, else `default_format`.
pub fn detect_format_from_header(content: &str, default_format: &str) -> (out: String)
    ensures
        out@ == header_format(content@, default_format@),
{
    match read_header(content) {
        Some(name) => string_of(&name),
        None => default_format.to_owned(),
    }
}

/// Loads the file called `file_name` with the text `content` as far as its
/// name and its text decide. Of a Makefile or a justfile the tasks are read.
/// Of a Kylefile the format is told, from its extension or else from its
/// header or `default_format`; an extension or a format name that stands for
/// no format is a failure that quotes it.
pub fn load_file(file_name: &str, content: &str, default_format: &str) -> (out: Result<
    Loaded,
    Error,
>)
    ensures
        match plan(file_name@, content@, default_format@) {
            Plan::Makefile => out matches Ok(Loaded::Tasks(file, source)) && source
                == Source::Makefile && file.name@.len() == 0 && file.includes@ == IncludesView::Absent
                && file.tasks@ == makefile::parsed(content@),
            Plan::Justfile => out matches Ok(Loaded::Tasks(file, source)) && source
                == Source::Justfile && file.name@.len() == 0 && file.includes@ == IncludesView::Absent
                && file.tasks@ == justfile::parsed(content@),
            Plan::Native(f) => out matches Ok(Loaded::Native(format)) && format == f,
            Plan::Fails(fault) => out matches Err(e) && e@ == fault,
        },
{
    let name = chars_of(file_name);
    if is_text(&name, "Makefile") || is_text(&name, "makefile") || is_text(&name, "GNUmakefile") {
        return match makefile::parse(content) {
            Ok(file) => Ok(Loaded::Tasks(file, Source::Makefile)),
            Err(e) => Err(e),
        };
    }
    if is_text(&name, "justfile") || is_text(&name, "Justfile") {
        return match justfile::parse(content) {
            Ok(file) => Ok(Loaded::Tasks(file, Source::Justfile)),
            Err(e) => Err(e),
        };
    }
    match extension_of(&name) {
        Some(ext) => {
            let mut dotted = chars_of(".");
            append(&mut dotted, &ext);
            let dotted = string_of(&dotted);
            match Format::from_extension(dotted.as_str()) {
                Some(f) => Ok(Loaded::Native(f)),
                None => Err(Error::UnsupportedExtension(dotted)),
            }
        },
        None => {
            let format_name = detect_format_from_header(content, default_format);
            match Format::from_name(format_name.as_str()) {
                Some(f) => Ok(Loaded::Native(f)),
                None => Err(Error::UnknownFormat(format_name)),
            }
        },
    }
}

} // verus!
