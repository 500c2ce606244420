//! Severities, their labels, and the settings read at start-up.
use vstd::prelude::*;
use crate::text::same_text;

verus! {

/// Severity of a record, from most to least severe.
#[derive(Clone, Copy, Debug, PartialEq, Eq, Structural)]
pub enum Level {
    Error,
    Warn,
    Info,
    Debug,
    Trace,
}

/// The fixed-width label shown for a level when color is off.
pub open spec fn label_of(l: Level) -> Seq<char> {
    match l {
        Level::Error => "Error "@,
        Level::Warn => "Warn  "@,
        Level::Info => "Info  "@,
        Level::Debug => "Debug "@,
        Level::Trace => "Trace "@,
    }
}

/// The SGR parameters of a level's color: red, yellow, blue, magenta and
/// cyan, all bold.
pub open spec fn color_code_of(l: Level) -> Seq<char> {
    match l {
        Level::Error => "1;31"@,
        Level::Warn => "1;93"@,
        Level::Info => "1;34"@,
        Level::Debug => "1;35"@,
        Level::Trace => "1;36"@,
    }
}

/// The threshold named by an already lower-cased setting: only `debug` and
/// `error` are recognised, everything else means `Info`.
pub open spec fn threshold_named(s: Seq<char>) -> Level {
    if s == "debug"@ {
        Level::Debug
    } else if s == "error"@ {
        Level::Error
    } else {
        Level::Info
    }
}

/// The lower-case form of a string, as `str::to_lowercase` gives it.
pub uninterp spec fn lower_of(s: Seq<char>) -> Seq<char>;

/// The threshold selected by the level setting, if one is given.
pub open spec fn threshold_of(setting: Option<Seq<char>>) -> Level {
    match setting {
        Some(s) => threshold_named(lower_of(s)),
        None => Level::Info,
    }
}

/// Whether the color setting leaves color on: only a setting that parses as
/// the boolean `false` turns it off.
pub open spec fn color_of(setting: Option<Seq<char>>) -> bool {
    match setting {
        Some(s) => s != "false"@,
        None => true,
    }
}

/// The view of an optional string setting.
pub open spec fn setting_view(setting: Option<&str>) -> Option<Seq<char>> {
    match setting {
        Some(s) => Some(s@),
        None => None,
    }
}

impl Level {
    /// The fixed-width label of this level.
    pub fn label(self) -> (r: &'static str)
        ensures
            r@ == label_of(self),
    {
        match self {
            Level::Error => "Error ",
            Level::Warn => "Warn  ",
            Level::Info => "Info  ",
            Level::Debug => "Debug ",
            Level::Trace => "Trace ",
        }
    }

    /// The SGR parameters of this level's color.
    pub fn color_code(self) -> (r: &'static str)
        ensures
            r@ == color_code_of(self),
    {
        match self {
            Level::Error => "1;31",
            Level::Warn => "1;93",
            Level::Info => "1;34",
            Level::Debug => "1;35",
            Level::Trace => "1;36",
        }
    }
}

/// Relies on `str::to_lowercase`: the result depends on the characters alone.
#[verifier::external_body]
fn lowercase(s: &str) -> (r: String)
    ensures
        r@ == lower_of(s@),
{
    s.to_lowercase()
}

/// The threshold named by a setting that is already lower-case.
pub fn threshold_from_lowercase(s: &str) -> (r: Level)
    ensures
        r == threshold_named(s@),
{
    if same_text(s, "debug") {
        Level::Debug
    } else if same_text(s, "error") {
        Level::Error
    } else {
        Level::Info
    }
}

/// The threshold selected by the level setting; `None` when it is unset.
/// Matching ignores case.
pub fn threshold_from(setting: Option<&str>) -> (r: Level)
    ensures
        r == threshold_of(setting_view(setting)),
{
    match setting {
        Some(s) => {
            let folded = lowercase(s);
            threshold_from_lowercase(folded.as_str())
        },
        None => Level::Info,
    }
}

/// Whether color is on, given the color setting; `None` when it is unset.
pub fn color_from(setting: Option<&str>) -> (r: bool)
    ensures
        r == color_of(setting_view(setting)),
{
    match setting {
        Some(s) => !same_text(s, "false"),
        None => true,
    }
}

/// Relies on `log::set_max_level`: it stores the process-wide filter that
/// the logging facade applies before any backend sees a record. Nothing is
/// returned, so nothing is promised.
#[verifier::external_body]
fn set_facade_max_level(level: Level) {
    log::set_max_level(
        match level {
            Level::Error => log::LevelFilter::Error,
            Level::Warn => log::LevelFilter::Warn,
            Level::Info => log::LevelFilter::Info,
            Level::Debug => log::LevelFilter::Debug,
            Level::Trace => log::LevelFilter::Trace,
        },
    );
}

/// Resolves the threshold from the level setting and installs it as the
/// facade's process-wide maximum level. Returns the threshold installed.
pub fn install_threshold(setting: Option<&str>) -> (r: Level)
    ensures
        r == threshold_of(setting_view(setting)),
{
    let level = threshold_from(setting);
    set_facade_max_level(level);
    level
}

} // verus!
