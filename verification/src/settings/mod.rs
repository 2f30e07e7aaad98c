//! The user's settings: what they are, and which values they can take.
//!
//! Where the settings are kept is the caller's matter. Here a key is looked
//! up or given a new value, which is checked first.

use crate::text::{append, chars_of, is_text, prefixed, string_of};
use vstd::prelude::*;

verus! {

/// What the settings say.
pub struct SettingsView {
    pub default_format: Seq<char>,
    pub auto_upgrade: bool,
}

/// The user's settings.
#[derive(Debug)]
pub struct Settings {
    /// The format of a Kylefile that names none.
    pub default_format: String,
    /// Whether the program looks for a newer version of itself.
    pub auto_upgrade: bool,
}

impl View for Settings {
    type V = SettingsView;

    open spec fn view(&self) -> SettingsView {
        SettingsView { default_format: self.default_format@, auto_upgrade: self.auto_upgrade }
    }
}

impl Clone for Settings {
    fn clone(&self) -> (out: Self)
        ensures
            out@ == self@,
    {
        Settings { default_format: self.default_format.clone(), auto_upgrade: self.auto_upgrade }
    }
}

impl Default for Settings {
    fn default() -> (out: Self)
        ensures
            out@ == (SettingsView { default_format: "toml"@, auto_upgrade: false }),
    {
        Settings { default_format: default_format(), auto_upgrade: false }
    }
}

/// The format of a Kylefile that names none, until the user sets another.
pub fn default_format() -> (out: String)
    ensures
        out@ == "toml"@,
{
    "toml".to_owned()
}

/// Why a setting could not be read or changed.
pub enum Fault {
    UnknownKey(Seq<char>),
    InvalidValue { key: Seq<char>, value: Seq<char>, allowed: Seq<char> },
    Io(Seq<char>),
    Parse(Seq<char>),
    Serialize(Seq<char>),
}

/// Why a setting could not be read or changed.
#[derive(Debug)]
pub enum Error {
    /// No setting has this key.
    UnknownKey(String),
    /// The setting `key` cannot take `value`; `allowed` lists what it can.
    InvalidValue { key: String, value: String, allowed: String },
    /// The settings file could not be read or written; the text says why.
    Io(String),
    /// The settings file is not well-formed; the text says why.
    Parse(String),
    /// The settings could not be written down; the text says why.
    Serialize(String),
}

impl View for Error {
    type V = Fault;

    open spec fn view(&self) -> Fault {
        match self {
            Error::UnknownKey(key) => Fault::UnknownKey(key@),
            Error::InvalidValue { key, value, allowed } => Fault::InvalidValue {
                key: key@,
                value: value@,
                allowed: allowed@,
            },
            Error::Io(text) => Fault::Io(text@),
            Error::Parse(text) => Fault::Parse(text@),
            Error::Serialize(text) => Fault::Serialize(text@),
        }
    }
}

/// What the fault says to the user.
pub open spec fn message_of(fault: Fault) -> Seq<char> {
    match fault {
        Fault::UnknownKey(key) => "unknown config key: "@ + key,
        Fault::InvalidValue { key, value, allowed } => "invalid value '"@ + value + "' for "@ + key
            + " (allowed: "@ + allowed + ")"@,
        Fault::Io(text) => "io error: "@ + text,
        Fault::Parse(text) => "parse error: "@ + text,
        Fault::Serialize(text) => "serialize error: "@ + text,
    }
}

impl Error {
    /// What the error says to the user.
    pub fn message(&self) -> (out: String)
        ensures
            out@ == message_of(self@),
    {
        match self {
            Error::UnknownKey(key) => prefixed("unknown config key: ", key.as_str()),
            Error::InvalidValue { key, value, allowed } => {
                let mut text = chars_of("invalid value '");
                append(&mut text, &chars_of(value.as_str()));
                append(&mut text, &chars_of("' for "));
                append(&mut text, &chars_of(key.as_str()));
                append(&mut text, &chars_of(" (allowed: "));
                append(&mut text, &chars_of(allowed.as_str()));
                append(&mut text, &chars_of(")"));
                string_of(&text)
            },
            Error::Io(text) => prefixed("io error: ", text.as_str()),
            Error::Parse(text) => prefixed("parse error: ", text.as_str()),
            Error::Serialize(text) => prefixed("serialize error: ", text.as_str()),
        }
    }
}

/// `b` as text.
pub open spec fn bool_text(b: bool) -> Seq<char> {
    if b {
        "true"@
    } else {
        "false"@
    }
}

/// The settings after `key` is set to `value`, or why that cannot be.
/// `default_format` takes `yaml` or `toml`, `auto_upgrade` takes `true` or
/// `false`, and there is no other key.
pub open spec fn updated(s: SettingsView, key: Seq<char>, value: Seq<char>) -> Result<
    SettingsView,
    Fault,
> {
    if key == "default_format"@ {
        if value == "yaml"@ || value == "toml"@ {
            Ok(SettingsView { default_format: value, ..s })
        } else {
            Err(Fault::InvalidValue { key, value, allowed: "yaml, toml"@ })
        }
    } else if key == "auto_upgrade"@ {
        if value == "true"@ || value == "false"@ {
            Ok(SettingsView { auto_upgrade: value == "true"@, ..s })
        } else {
            Err(Fault::InvalidValue { key, value, allowed: "true, false"@ })
        }
    } else {
        Err(Fault::UnknownKey(key))
    }
}

/// The value of the setting `key`, as text, or why there is none.
pub open spec fn value_of(s: SettingsView, key: Seq<char>) -> Result<Seq<char>, Fault> {
    if key == "default_format"@ {
        Ok(s.default_format)
    } else if key == "auto_upgrade"@ {
        Ok(bool_text(s.auto_upgrade))
    } else {
        Err(Fault::UnknownKey(key))
    }
}

/// `b` as text.
fn text_of(b: bool) -> (out: String)
    ensures
        out@ == bool_text(b),
{
    if b {
        "true".to_owned()
    } else {
        "false".to_owned()
    }
}

/// Sets `key` to `value`. Where the key is unknown or cannot take the value,
/// the settings stay as they are.
pub fn set(settings: &mut Settings, key: &str, value: &str) -> (out: Result<(), Error>)
    ensures
        match updated(old(settings)@, key@, value@) {
            Ok(s) => out is Ok && final(settings)@ == s,
            Err(fault) => out matches Err(e) && e@ == fault && final(settings)@ == old(settings)@,
        },
{
    let k = chars_of(key);
    let v = chars_of(value);
    if is_text(&k, "default_format") {
        if is_text(&v, "yaml") || is_text(&v, "toml") {
            settings.default_format = value.to_owned();
            Ok(())
        } else {
            Err(
                Error::InvalidValue {
                    key: key.to_owned(),
                    value: value.to_owned(),
                    allowed: "yaml, toml".to_owned(),
                },
            )
        }
    } else if is_text(&k, "auto_upgrade") {
        if is_text(&v, "true") {
            settings.auto_upgrade = true;
            Ok(())
        } else if is_text(&v, "false") {
            settings.auto_upgrade = false;
            proof {
                reveal_strlit("true");
                reveal_strlit("false");
            }
            Ok(())
        } else {
            Err(
                Error::InvalidValue {
                    key: key.to_owned(),
                    value: value.to_owned(),
                    allowed: "true, false".to_owned(),
                },
            )
        }
    } else {
        Err(Error::UnknownKey(key.to_owned()))
    }
}

/// The value of the setting `key`, as text.
pub fn get_value(settings: &Settings, key: &str) -> (out: Result<String, Error>)
    ensures
        match value_of(settings@, key@) {
            Ok(text) => out matches Ok(v) && v@ == text,
            Err(fault) => out matches Err(e) && e@ == fault,
        },
{
    let k = chars_of(key);
    if is_text(&k, "default_format") {
        Ok(settings.default_format.clone())
    } else if is_text(&k, "auto_upgrade") {
        Ok(text_of(settings.auto_upgrade))
    } else {
        Err(Error::UnknownKey(key.to_owned()))
    }
}

/// Every setting: its key and its value, as text.
pub fn list(settings: &Settings) -> (out: Vec<(String, String)>)
    ensures
        out@.len() == 2,
        out@[0].0@ == "default_format"@,
        out@[0].1@ == settings@.default_format,
        out@[1].0@ == "auto_upgrade"@,
        out@[1].1@ == bool_text(settings@.auto_upgrade),
{
    let mut out: Vec<(String, String)> = Vec::new();
    out.push(("default_format".to_owned(), settings.default_format.clone()));
    out.push(("auto_upgrade".to_owned(), text_of(settings.auto_upgrade)));
    out
}

} // verus!
