//! The formats of native task-definition files.

use crate::text::{chars_of, is_text, lowercase, to_lower};
use vstd::prelude::*;

verus! {

/// A format in which a Kylefile can be written.
#[derive(Debug, Clone, Copy, PartialEq, Eq)]
pub enum Format {
    Yaml,
    Toml,
}

/// The name of the format `f`.
pub open spec fn name_of(f: Format) -> Seq<char> {
    match f {
        Format::Yaml => "yaml"@,
        Format::Toml => "toml"@,
    }
}

/// The file extensions that stand for the format `f`, each with its dot.
pub open spec fn extensions_of(f: Format) -> Seq<Seq<char>> {
    match f {
        Format::Yaml => seq![".yaml"@, ".yml"@],
        Format::Toml => seq![".toml"@],
    }
}

/// The format called `name`, whatever the case of its letters.
pub open spec fn named(name: Seq<char>) -> Option<Format> {
    if to_lower(name) == "yaml"@ {
        Some(Format::Yaml)
    } else if to_lower(name) == "toml"@ {
        Some(Format::Toml)
    } else {
        None
    }
}

/// The format that the extension `ext`, with its dot, stands for.
pub open spec fn by_extension(ext: Seq<char>) -> Option<Format> {
    if ext == ".yaml"@ || ext == ".yml"@ {
        Some(Format::Yaml)
    } else if ext == ".toml"@ {
        Some(Format::Toml)
    } else {
        None
    }
}

impl Format {
    /// The format's name.
    pub fn name(self) -> (out: &'static str)
        ensures
            out@ == name_of(self),
    {
        match self {
            Format::Yaml => "yaml",
            Format::Toml => "toml",
        }
    }

    /// The file extensions that stand for the format, each with its dot.
    pub fn extensions(self) -> (out: &'static [&'static str])
        ensures
            out@.len() == extensions_of(self).len(),
            forall|i: int| 0 <= i < out@.len() ==> (#[trigger] out@[i])@ == extensions_of(self)[i],
    {
        match self {
            Format::Yaml => &[".yaml", ".yml"],
            Format::Toml => &[".toml"],
        }
    }

    /// The format called `name`, if it is one; the case of the letters does
    /// not count.
    pub fn from_name(name: &str) -> (out: Option<Self>)
        ensures
            out == named(name@),
    {
        let text = lowercase(&chars_of(name));
        if is_text(&text, "yaml") {
            Some(Format::Yaml)
        } else if is_text(&text, "toml") {
            Some(Format::Toml)
        } else {
            None
        }
    }

    /// The format that the extension `ext`, with its dot, stands for, if it
    /// stands for one.
    pub fn from_extension(ext: &str) -> (out: Option<Self>)
        ensures
            out == by_extension(ext@),
    {
        let text = chars_of(ext);
        if is_text(&text, ".yaml") || is_text(&text, ".yml") {
            Some(Format::Yaml)
        } else if is_text(&text, ".toml") {
            Some(Format::Toml)
        } else {
            None
        }
    }
}

} // verus!
