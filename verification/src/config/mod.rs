//! Task definitions and the formats they are read from.

pub mod format;
pub mod justfile;
pub mod kylefile;
pub mod loader;
pub mod makefile;
pub mod recipe;

pub use format::Format;
pub use kylefile::{Includes, Kylefile, Task, TaskMap, TaskView};
pub use loader::{load, load_from_dir, Source};

use crate::config::kylefile::texts;
use crate::text::{append, chars_of, join, join_with, prefixed, string_of, views};
use vstd::prelude::*;

verus! {

/// What went wrong when a task-definition file was loaded.
pub enum Fault {
    Io(Seq<char>),
    Yaml(Seq<char>),
    Toml(Seq<char>),
    UnknownFormat(Seq<char>),
    UnsupportedExtension(Seq<char>),
    NotFound(Seq<Seq<char>>),
}

/// Why a task-definition file could not be loaded.
#[derive(Debug)]
pub enum Error {
    /// The file could not be read; the text says why.
    Io(String),
    /// The file is not well-formed YAML; the text is the parser's message.
    Yaml(String),
    /// The file is not well-formed TOML; the text is the parser's message.
    Toml(String),
    /// The file's header names a format that is not known.
    UnknownFormat(String),
    /// The file's extension stands for no known format.
    UnsupportedExtension(String),
    /// The directory holds no task-definition file; these names were tried.
    NotFound(Vec<String>),
}

impl View for Error {
    type V = Fault;

    open spec fn view(&self) -> Fault {
        match self {
            Error::Io(text) => Fault::Io(text@),
            Error::Yaml(text) => Fault::Yaml(text@),
            Error::Toml(text) => Fault::Toml(text@),
            Error::UnknownFormat(name) => Fault::UnknownFormat(name@),
            Error::UnsupportedExtension(ext) => Fault::UnsupportedExtension(ext@),
            Error::NotFound(names) => Fault::NotFound(texts(names@)),
        }
    }
}

/// Each name of `names` between double quotes.
pub open spec fn quoted(names: Seq<Seq<char>>) -> Seq<Seq<char>> {
    Seq::new(names.len(), |i: int| "\""@ + names[i] + "\""@)
}

/// What the fault says to the user.
pub open spec fn message_of(fault: Fault) -> Seq<char> {
    match fault {
        Fault::Io(text) => text,
        Fault::Yaml(text) => "yaml parse error: "@ + text,
        Fault::Toml(text) => "toml parse error: "@ + text,
        Fault::UnknownFormat(name) => "unknown format: "@ + name,
        Fault::UnsupportedExtension(ext) => "unsupported file format: "@ + ext,
        Fault::NotFound(names) => "no Kylefile found (looked for: ["@ + join(
            quoted(names),
            ", "@,
        ) + "])"@,
    }
}

impl Error {
    /// What the error says to the user.
    pub fn message(&self) -> (out: String)
        ensures
            out@ == message_of(self@),
    {
        match self {
            Error::Io(text) => text.clone(),
            Error::Yaml(text) => prefixed("yaml parse error: ", text.as_str()),
            Error::Toml(text) => prefixed("toml parse error: ", text.as_str()),
            Error::UnknownFormat(name) => prefixed("unknown format: ", name.as_str()),
            Error::UnsupportedExtension(ext) => prefixed("unsupported file format: ", ext.as_str()),
            Error::NotFound(names) => {
                let mut parts: Vec<Vec<char>> = Vec::new();
                let mut i: usize = 0;
                while i < names.len()
                    invariant
                        i <= names.len(),
                        parts.len() == i,
                        forall|k: int|
                            0 <= k < i ==> parts@[k]@ == quoted(texts(names@))[k],
                    decreases names.len() - i,
                {
                    let mut part = chars_of("\"");
                    append(&mut part, &chars_of(names[i].as_str()));
                    append(&mut part, &chars_of("\""));
                    parts.push(part);
                    i += 1;
                }
                assert(views(parts@) =~= quoted(texts(names@)));
                let mut text = chars_of("no Kylefile found (looked for: [");
                append(&mut text, &join_with(&parts, &chars_of(", ")));
                append(&mut text, &chars_of("])"));
                string_of(&text)
            },
        }
    }
}

} // verus!
