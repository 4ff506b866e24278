//! Severities of log events and the thresholds that filter them.
use vstd::prelude::*;

verus! {

/// The severity of one log event, from the most to the least severe.
#[derive(Clone, Copy, Debug, PartialEq, Eq, Structural, Hash)]
pub enum Level {
    Error,
    Warn,
    Info,
    Debug,
    Trace,
}

/// A severity threshold: `Off` lets nothing through, `Trace` everything.
#[derive(Clone, Copy, Debug, PartialEq, Eq, Structural, Hash)]
pub enum LevelFilter {
    Off,
    Error,
    Warn,
    Info,
    Debug,
    Trace,
}

/// Rank of a threshold, from `Off` (nothing passes) up to `Trace`.
pub open spec fn filter_rank(f: LevelFilter) -> nat {
    match f {
        LevelFilter::Off => 0,
        LevelFilter::Error => 1,
        LevelFilter::Warn => 2,
        LevelFilter::Info => 3,
        LevelFilter::Debug => 4,
        LevelFilter::Trace => 5,
    }
}

/// The lowercase name of a severity, as it stands in the `level` label.
pub open spec fn level_name(l: Level) -> Seq<char> {
    match l {
        Level::Error => seq!['e', 'r', 'r', 'o', 'r'],
        Level::Warn => seq!['w', 'a', 'r', 'n'],
        Level::Info => seq!['i', 'n', 'f', 'o'],
        Level::Debug => seq!['d', 'e', 'b', 'u', 'g'],
        Level::Trace => seq!['t', 'r', 'a', 'c', 'e'],
    }
}

/// Distinct severities have distinct names.
pub proof fn lemma_level_name_injective(a: Level, b: Level)
    ensures
        level_name(a) == level_name(b) <==> a == b,
{
    if a != b {
        assert(level_name(a)[0] != level_name(b)[0] || level_name(a).len() != level_name(b).len()
            || level_name(a)[1] != level_name(b)[1]);
    }
}

impl Level {
    /// All severities, from the most to the least severe.
    pub open spec fn all() -> Seq<Level> {
        seq![Level::Error, Level::Warn, Level::Info, Level::Debug, Level::Trace]
    }

    /// The lowercase name of the severity.
    pub fn as_str(&self) -> (r: &'static str)
        ensures
            r@ == level_name(*self),
    {
        match self {
            Level::Error => {
                proof {
                    reveal_strlit("error");
                }
                "error"
            },
            Level::Warn => {
                proof {
                    reveal_strlit("warn");
                }
                "warn"
            },
            Level::Info => {
                proof {
                    reveal_strlit("info");
                }
                "info"
            },
            Level::Debug => {
                proof {
                    reveal_strlit("debug");
                }
                "debug"
            },
            Level::Trace => {
                proof {
                    reveal_strlit("trace");
                }
                "trace"
            },
        }
    }
}

} // verus!
