//! Severity levels of a report.

use crate::style::{Style, Stylesheet};
use vstd::prelude::*;

verus! {

/// The five severities.
#[derive(Clone, Copy, Debug, PartialEq, Eq, Structural)]
pub enum LevelInner {
    Error,
    Warning,
    Info,
    Note,
    Help,
}

/// A severity together with the name it is shown under.
///
/// `name` is `None` for the severity's own name, `Some(None)` for no name at
/// all, and `Some(Some(text))` for a name chosen by the caller.
#[derive(Clone, Debug)]
pub struct Level {
    pub name: Option<Option<String>>,
    pub level: LevelInner,
}

impl LevelInner {
    /// The name a severity is shown under when none was chosen.
    pub open spec fn default_name(self) -> Seq<char> {
        match self {
            LevelInner::Error => seq!['e', 'r', 'r', 'o', 'r'],
            LevelInner::Warning => seq!['w', 'a', 'r', 'n', 'i', 'n', 'g'],
            LevelInner::Info => seq!['i', 'n', 'f', 'o'],
            LevelInner::Note => seq!['n', 'o', 't', 'e'],
            LevelInner::Help => seq!['h', 'e', 'l', 'p'],
        }
    }
}

impl Level {
    /// The level of errors.
    pub fn error() -> (l: Level)
        ensures
            l.name is None,
            l.level == LevelInner::Error,
    {
        Level { name: None, level: LevelInner::Error }
    }

    /// The level of warnings.
    pub fn warning() -> (l: Level)
        ensures
            l.name is None,
            l.level == LevelInner::Warning,
    {
        Level { name: None, level: LevelInner::Warning }
    }

    /// The level of informational remarks.
    pub fn info() -> (l: Level)
        ensures
            l.name is None,
            l.level == LevelInner::Info,
    {
        Level { name: None, level: LevelInner::Info }
    }

    /// The level of notes.
    pub fn note() -> (l: Level)
        ensures
            l.name is None,
            l.level == LevelInner::Note,
    {
        Level { name: None, level: LevelInner::Note }
    }

    /// The level of hints.
    pub fn help() -> (l: Level)
        ensures
            l.name is None,
            l.level == LevelInner::Help,
    {
        Level { name: None, level: LevelInner::Help }
    }

    /// Shows the level under `name` instead of the severity's own name.
    pub fn with_name(self, name: &str) -> (l: Level)
        ensures
            l.level == self.level,
            l.name matches Some(Some(n)) && n@ == name@,
    {
        Level { name: Some(Some(name.to_owned())), level: self.level }
    }

    /// Shows the level without any name.
    pub fn no_name(self) -> (l: Level)
        ensures
            l.level == self.level,
            l.name == Some(None::<String>),
    {
        Level { name: Some(None), level: self.level }
    }

    /// The name the level is shown under; empty where it has none.
    pub open spec fn label(self) -> Seq<char> {
        match self.name {
            Some(Some(name)) => name@,
            Some(None) => Seq::empty(),
            None => self.level.default_name(),
        }
    }

    /// Whether the level is shown with a name at all.
    pub open spec fn has_name(self) -> bool {
        self.name != Some(None::<String>)
    }

    /// Whether the level is shown with a name at all.
    pub fn is_named(&self) -> (b: bool)
        ensures
            b == self.has_name(),
    {
        match &self.name {
            Some(None) => false,
            _ => true,
        }
    }

    /// The name the level is shown under; empty where it has none.
    pub fn as_str(&self) -> (s: &str)
        ensures
            s@ == self.label(),
    {
        proof {
            reveal_strlit("");
            reveal_strlit("error");
            reveal_strlit("warning");
            reveal_strlit("info");
            reveal_strlit("note");
            reveal_strlit("help");
        }
        match &self.name {
            Some(Some(name)) => name.as_str(),
            Some(None) => {
                assert(""@ =~= Seq::<char>::empty());
                ""
            },
            None => match self.level {
                LevelInner::Error => {
                    assert("error"@ =~= self.level.default_name());
                    "error"
                },
                LevelInner::Warning => {
                    assert("warning"@ =~= self.level.default_name());
                    "warning"
                },
                LevelInner::Info => {
                    assert("info"@ =~= self.level.default_name());
                    "info"
                },
                LevelInner::Note => {
                    assert("note"@ =~= self.level.default_name());
                    "note"
                },
                LevelInner::Help => {
                    assert("help"@ =~= self.level.default_name());
                    "help"
                },
            },
        }
    }

    /// The style that the sheet gives to this level's severity.
    pub fn style(&self, stylesheet: &Stylesheet) -> (s: Style)
        ensures
            s == self.level.style_spec(*stylesheet),
    {
        self.level.style(stylesheet)
    }
}

} // verus!
