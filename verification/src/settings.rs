//! The user's settings: the typing.com account and class to work with, and
//! the file they were read from.
use vstd::prelude::*;

use std::path::PathBuf;

use crate::api::typing::{TypingClass, TypingClassView};

verus! {

/// `std::path::PathBuf`, carried opaque.
#[verifier::external_type_specification]
#[verifier::external_body]
pub struct ExPathBuf(std::path::PathBuf);

/// The name of the settings file.
pub const FILENAME: &'static str = "settings.toml";

/// The user's settings.
#[derive(Debug, Clone, PartialEq, Eq)]
pub struct Settings {
    pub typing_username: Option<String>,
    pub typing_class: Option<TypingClass>,
    loaded_from: Option<PathBuf>,
}

/// What the settings say.
pub struct SettingsView {
    pub typing_username: Option<Seq<char>>,
    pub typing_class: Option<TypingClassView>,
    pub source: Option<PathBuf>,
}

impl View for Settings {
    type V = SettingsView;

    closed spec fn view(&self) -> SettingsView {
        SettingsView {
            typing_username: match self.typing_username {
                Some(u) => Some(u@),
                None => None,
            },
            typing_class: match self.typing_class {
                Some(c) => Some(c@),
                None => None,
            },
            source: self.loaded_from,
        }
    }
}

/// Where the settings file is looked for, first match wins: the
/// `settings.toml` of the working directory (`in_working_dir`), when it is a
/// file; else the one in the platform's configuration directory for this app
/// (`in_config_dir`), where a new file is made when none exists yet; else,
/// when the platform has no such directory, the bare file name.
pub fn config_path(
    in_working_dir: Option<PathBuf>,
    in_working_dir_is_file: bool,
    in_config_dir: Option<PathBuf>,
    bare: PathBuf,
) -> (r: PathBuf)
    ensures
        r == (if in_working_dir is Some && in_working_dir_is_file {
            in_working_dir->0
        } else if in_config_dir is Some {
            in_config_dir->0
        } else {
            bare
        }),
{
    match in_working_dir {
        Some(p) if in_working_dir_is_file => p,
        _ => match in_config_dir {
            Some(p) => p,
            None => bare,
        },
    }
}

impl Default for Settings {
    fn default() -> (r: Settings)
        ensures
            r@.typing_username is None,
            r@.typing_class is None,
            r@.source is None,
    {
        Settings { typing_username: None, typing_class: None, loaded_from: None }
    }
}

impl Settings {
    /// The typing.com user name, if set.
    pub fn typing_username(&self) -> (r: Option<&String>)
        ensures
            match r {
                Some(u) => self@.typing_username == Some(u@),
                None => self@.typing_username is None,
            },
    {
        match &self.typing_username {
            Some(u) => Some(u),
            None => None,
        }
    }

    /// The selected class, if set.
    pub fn typing_class(&self) -> (r: Option<&TypingClass>)
        ensures
            match r {
                Some(c) => self@.typing_class == Some(c@),
                None => self@.typing_class is None,
            },
    {
        match &self.typing_class {
            Some(c) => Some(c),
            None => None,
        }
    }

    /// The file these settings were read from, if any.
    pub fn loaded_from(&self) -> (r: Option<&PathBuf>)
        ensures
            match r {
                Some(p) => self@.source == Some(*p),
                None => self@.source is None,
            },
    {
        match &self.loaded_from {
            Some(p) => Some(p),
            None => None,
        }
    }

    /// Where these settings are written: the file they were read from, or,
    /// for settings that were not read from a file, `resolved` (see
    /// [`config_path`]).
    pub fn save_target<'a>(&'a self, resolved: &'a PathBuf) -> (r: &'a PathBuf)
        ensures
            *r == match self@.source {
                Some(p) => p,
                None => *resolved,
            },
    {
        match &self.loaded_from {
            Some(p) => p,
            None => resolved,
        }
    }

    /// The settings that the file at `path` provides: those it held when it
    /// could be read and parsed (`parsed`), the defaults otherwise; either
    /// way remembering `path` as their source.
    pub fn from_file(parsed: Option<Settings>, path: PathBuf) -> (r: Settings)
        ensures
            match parsed {
                Some(s) => r@.typing_username == s@.typing_username && r@.typing_class
                    == s@.typing_class,
                None => r@.typing_username is None && r@.typing_class is None,
            },
            r@.source == Some(path),
    {
        let mut settings = match parsed {
            Some(s) => s,
            None => Settings::default(),
        };
        settings.loaded_from = Some(path);
        settings
    }
}

} // verus!
