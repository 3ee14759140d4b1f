//! Severity levels, their names, and how level names are recognised.

use vstd::prelude::*;

verus! {

/// Severity of a record, also used as a filter threshold.
///
/// The variants are listed from the least to the most severe.
#[derive(Clone, Copy, Debug, PartialEq, Eq, Hash, Structural)]
pub enum Level {
    Trace,
    Debug,
    Info,
    Warning,
    Error,
    Critical,
}

impl Level {
    /// Position of the level in the total order, `Trace` lowest.
    pub open spec fn severity(self) -> int {
        match self {
            Level::Trace => 0,
            Level::Debug => 1,
            Level::Info => 2,
            Level::Warning => 3,
            Level::Error => 4,
            Level::Critical => 5,
        }
    }

    /// Lower-case full name of the level.
    pub open spec fn long_name(self) -> Seq<char> {
        match self {
            Level::Trace => "trace"@,
            Level::Debug => "debug"@,
            Level::Info => "info"@,
            Level::Warning => "warning"@,
            Level::Error => "error"@,
            Level::Critical => "critical"@,
        }
    }

    /// Lower-case four-letter name of the level.
    pub open spec fn short_name(self) -> Seq<char> {
        match self {
            Level::Trace => "trce"@,
            Level::Debug => "debg"@,
            Level::Info => "info"@,
            Level::Warning => "warn"@,
            Level::Error => "erro"@,
            Level::Critical => "crit"@,
        }
    }

    /// Whether a record of level `self` passes the threshold `threshold`.
    pub fn at_least(self, threshold: Level) -> (r: bool)
        ensures
            r == (self.severity() >= threshold.severity()),
    {
        self.rank() >= threshold.rank()
    }

    /// The level's position in the total order as a machine integer.
    pub fn rank(self) -> (r: u8)
        ensures
            r as int == self.severity(),
    {
        match self {
            Level::Trace => 0,
            Level::Debug => 1,
            Level::Info => 2,
            Level::Warning => 3,
            Level::Error => 4,
            Level::Critical => 5,
        }
    }

    /// The lower-case full name, as written into structured records.
    pub fn name(self) -> (r: &'static str)
        ensures
            r@ == self.long_name(),
    {
        match self {
            Level::Trace => "trace",
            Level::Debug => "debug",
            Level::Info => "info",
            Level::Warning => "warning",
            Level::Error => "error",
            Level::Critical => "critical",
        }
    }
}

/// Severity orders the levels totally: two levels compare one way or the
/// other, and only a level itself is as severe as it.
pub proof fn lemma_severity_is_total(a: Level, b: Level)
    ensures
        a.severity() <= b.severity() || b.severity() <= a.severity(),
        a.severity() == b.severity() <==> a == b,
{
}

/// ASCII lower-case form of a character; other characters are unchanged.
pub open spec fn ascii_lower(c: char) -> char {
    if 'A' <= c && c <= 'Z' {
        ((c as u8) + 32) as char
    } else {
        c
    }
}

/// Whether `name`, read without regard to ASCII case, is a non-empty prefix
/// of the lower-case word `word`.
pub open spec fn abbreviates(name: Seq<char>, word: Seq<char>) -> bool {
    &&& 0 < name.len() <= word.len()
    &&& forall|i: int| 0 <= i < name.len() ==> ascii_lower(#[trigger] name[i]) == word[i]
}

/// Whether `name` denotes `level`: it abbreviates the level's full name or its
/// four-letter name.
pub open spec fn denotes(name: Seq<char>, level: Level) -> bool {
    abbreviates(name, level.long_name()) || abbreviates(name, level.short_name())
}

/// The level a name stands for, if any.
pub open spec fn level_named(name: Seq<char>) -> Option<Level> {
    if denotes(name, Level::Critical) {
        Some(Level::Critical)
    } else if denotes(name, Level::Error) {
        Some(Level::Error)
    } else if denotes(name, Level::Warning) {
        Some(Level::Warning)
    } else if denotes(name, Level::Info) {
        Some(Level::Info)
    } else if denotes(name, Level::Debug) {
        Some(Level::Debug)
    } else if denotes(name, Level::Trace) {
        Some(Level::Trace)
    } else {
        None
    }
}

/// Recognises a level name with `slog`'s `FromStr` implementation for
/// `slog::Level`.
///
/// `slog` accepts a non-empty name that, compared without regard to ASCII
/// case, is a prefix of one of its full level names or of one of its
/// four-letter names; the name of its "off" filter level is no record level
/// and is rejected. The contract restates exactly that.
#[verifier::external_body]
pub(crate) fn recognise_level(name: &str) -> (r: Option<Level>)
    ensures
        r == level_named(name@),
{
    match name.parse::<slog::Level>() {
        Ok(slog::Level::Critical) => Some(Level::Critical),
        Ok(slog::Level::Error) => Some(Level::Error),
        Ok(slog::Level::Warning) => Some(Level::Warning),
        Ok(slog::Level::Info) => Some(Level::Info),
        Ok(slog::Level::Debug) => Some(Level::Debug),
        Ok(slog::Level::Trace) => Some(Level::Trace),
        Err(_) => None,
    }
}

/// A name that abbreviates a word starts, up to ASCII case, with the word's
/// first letter.
proof fn lemma_first_letter(name: Seq<char>, word: Seq<char>)
    requires
        abbreviates(name, word),
    ensures
        ascii_lower(name[0]) == word[0],
{
}

/// A non-empty word without upper-case ASCII letters abbreviates itself.
proof fn lemma_abbreviates_itself(word: Seq<char>)
    requires
        word.len() > 0,
        forall|i: int| 0 <= i < word.len() ==> !('A' <= #[trigger] word[i] && word[i] <= 'Z'),
    ensures
        abbreviates(word, word),
{
}

/// Every level is recognised by its own full name.
pub proof fn lemma_full_name_denotes(level: Level)
    ensures
        level_named(level.long_name()) == Some(level),
{
    reveal_strlit("trace");
    reveal_strlit("debug");
    reveal_strlit("info");
    reveal_strlit("warning");
    reveal_strlit("error");
    reveal_strlit("critical");
    reveal_strlit("trce");
    reveal_strlit("debg");
    reveal_strlit("warn");
    reveal_strlit("erro");
    reveal_strlit("crit");
    let name = level.long_name();
    lemma_abbreviates_itself(name);
    assert forall|other: Level| other != level implies !denotes(name, other) by {
        if abbreviates(name, other.long_name()) {
            lemma_first_letter(name, other.long_name());
        }
        if abbreviates(name, other.short_name()) {
            lemma_first_letter(name, other.short_name());
        }
    }
}

} // verus!
