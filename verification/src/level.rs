//! Severities of records and the threshold a sink is configured with.

use std::str::FromStr;
use vstd::prelude::*;

verus! {

/// Severity of one record. The variants are declared from the most severe to
/// the least severe.
#[derive(Clone, Copy, Debug, PartialEq, Eq, Hash, Structural)]
pub enum Level {
    Error,
    Warn,
    Info,
    Debug,
    Trace,
}

/// Threshold of a sink. `Off` admits no record at all; every other threshold
/// admits the level of the same name and all levels that are more severe.
#[derive(Clone, Copy, Debug, PartialEq, Eq, Hash, Structural)]
pub enum LevelFilter {
    Off,
    Error,
    Warn,
    Info,
    Debug,
    Trace,
}

impl Level {
    /// Place on the severity scale: 1 for `Error`, the most severe, up to 5
    /// for `Trace`. A smaller rank is a more severe level.
    pub open spec fn rank(self) -> int {
        match self {
            Level::Error => 1,
            Level::Warn => 2,
            Level::Info => 3,
            Level::Debug => 4,
            Level::Trace => 5,
        }
    }

    /// The upper-case name under which the level appears on the wire.
    pub open spec fn name(self) -> Seq<char> {
        match self {
            Level::Error => "ERROR"@,
            Level::Warn => "WARN"@,
            Level::Info => "INFO"@,
            Level::Debug => "DEBUG"@,
            Level::Trace => "TRACE"@,
        }
    }

    /// Executable form of [`Level::rank`].
    pub fn severity(self) -> (rank: u8)
        ensures
            rank == self.rank(),
    {
        match self {
            Level::Error => 1,
            Level::Warn => 2,
            Level::Info => 3,
            Level::Debug => 4,
            Level::Trace => 5,
        }
    }

    /// The name of the level as it is written into a record.
    pub fn as_str(self) -> (name: &'static str)
        ensures
            name@ == self.name(),
            name@.len() > 0,
    {
        proof {
            reveal_strlit("ERROR");
            reveal_strlit("WARN");
            reveal_strlit("INFO");
            reveal_strlit("DEBUG");
            reveal_strlit("TRACE");
        }
        match self {
            Level::Error => "ERROR",
            Level::Warn => "WARN",
            Level::Info => "INFO",
            Level::Debug => "DEBUG",
            Level::Trace => "TRACE",
        }
    }
}

/// The lower-case form of an ASCII capital letter; every other character is
/// left as it is.
pub open spec fn ascii_lowercase(c: char) -> char {
    if 'A' <= c && c <= 'Z' {
        ((c as u32) + 32) as char
    } else {
        c
    }
}

/// Whether two texts have the same length and agree character by character
/// once ASCII letters are compared without regard to case.
pub open spec fn eq_ignoring_ascii_case(a: Seq<char>, b: Seq<char>) -> bool {
    &&& a.len() == b.len()
    &&& forall|i: int| 0 <= i < a.len() ==> ascii_lowercase(#[trigger] a[i]) == ascii_lowercase(b[i])
}

impl LevelFilter {
    /// Place on the severity scale: 0 for `Off`, otherwise the rank of the
    /// level of the same name.
    pub open spec fn rank(self) -> int {
        match self {
            LevelFilter::Off => 0,
            LevelFilter::Error => 1,
            LevelFilter::Warn => 2,
            LevelFilter::Info => 3,
            LevelFilter::Debug => 4,
            LevelFilter::Trace => 5,
        }
    }

    /// Whether a record of severity `level` is at least as severe as this
    /// threshold asks.
    pub open spec fn admits(self, level: Level) -> bool {
        level.rank() <= self.rank()
    }

    /// The threshold that a piece of configuration text names, if it names
    /// one: `off`, `error`, `warn`, `info`, `debug` or `trace`, in any mix of
    /// upper and lower case.
    pub open spec fn named(text: Seq<char>) -> Option<LevelFilter> {
        if eq_ignoring_ascii_case(text, "OFF"@) {
            Some(LevelFilter::Off)
        } else if eq_ignoring_ascii_case(text, "ERROR"@) {
            Some(LevelFilter::Error)
        } else if eq_ignoring_ascii_case(text, "WARN"@) {
            Some(LevelFilter::Warn)
        } else if eq_ignoring_ascii_case(text, "INFO"@) {
            Some(LevelFilter::Info)
        } else if eq_ignoring_ascii_case(text, "DEBUG"@) {
            Some(LevelFilter::Debug)
        } else if eq_ignoring_ascii_case(text, "TRACE"@) {
            Some(LevelFilter::Trace)
        } else {
            None
        }
    }

    /// The threshold that an optional configuration value stands for: the
    /// one it names, and `Info` when the value is absent or names none.
    pub open spec fn configured(value: Option<Seq<char>>) -> LevelFilter {
        match value {
            Some(text) => match LevelFilter::named(text) {
                Some(filter) => filter,
                None => LevelFilter::Info,
            },
            None => LevelFilter::Info,
        }
    }

    /// Executable form of [`LevelFilter::rank`].
    pub fn severity(self) -> (rank: u8)
        ensures
            rank == self.rank(),
    {
        match self {
            LevelFilter::Off => 0,
            LevelFilter::Error => 1,
            LevelFilter::Warn => 2,
            LevelFilter::Info => 3,
            LevelFilter::Debug => 4,
            LevelFilter::Trace => 5,
        }
    }

    /// Decides whether a record of severity `level` passes this threshold.
    pub fn allows(self, level: Level) -> (admitted: bool)
        ensures
            admitted == self.admits(level),
    {
        level.severity() <= self.severity()
    }

    /// Reads a threshold from its name, ignoring ASCII case.
    pub fn parse(text: &str) -> (parsed: Option<LevelFilter>)
        ensures
            parsed == LevelFilter::named(text@),
    {
        filter_by_name(text)
    }

    /// Chooses the threshold for an optional configuration value, falling
    /// back to `Info` when the value is missing or cannot be read.
    pub fn from_setting(value: Option<&str>) -> (filter: LevelFilter)
        ensures
            filter == LevelFilter::configured(
                match value {
                    Some(text) => Some(text@),
                    None => None,
                },
            ),
    {
        match value {
            Some(text) => match LevelFilter::parse(text) {
                Some(filter) => filter,
                None => LevelFilter::Info,
            },
            None => LevelFilter::Info,
        }
    }
}

/// Calls `log::LevelFilter::from_str`, which compares its argument with the
/// six level names `OFF`, `ERROR`, `WARN`, `INFO`, `DEBUG` and `TRACE` by
/// `str::eq_ignore_ascii_case` and fails when none of them matches. The
/// contract restates that comparison, which is not verified here.
#[verifier::external_body]
fn filter_by_name(text: &str) -> (parsed: Option<LevelFilter>)
    ensures
        parsed == LevelFilter::named(text@),
{
    match log::LevelFilter::from_str(text) {
        Ok(log::LevelFilter::Off) => Some(LevelFilter::Off),
        Ok(log::LevelFilter::Error) => Some(LevelFilter::Error),
        Ok(log::LevelFilter::Warn) => Some(LevelFilter::Warn),
        Ok(log::LevelFilter::Info) => Some(LevelFilter::Info),
        Ok(log::LevelFilter::Debug) => Some(LevelFilter::Debug),
        Ok(log::LevelFilter::Trace) => Some(LevelFilter::Trace),
        Err(_) => None,
    }
}

} // verus!
