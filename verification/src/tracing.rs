//! What the tracing setup asks of a configuration, and the filter
//! directives that are made from it.

use vstd::prelude::*;
use vstd::string::StringExecFns;

verus! {

/// How much is traced: from the most to the least important events.
#[derive(Clone, Copy, Debug, PartialEq, Eq, Structural)]
pub enum Level {
    /// Errors only.
    Error,
    /// Warnings and what is more important.
    Warn,
    /// Information and what is more important.
    Info,
    /// Debugging output and what is more important.
    Debug,
    /// Everything.
    Trace,
}

/// A filter on levels: a level, or nothing at all.
#[derive(Clone, Copy, Debug, PartialEq, Eq, Structural)]
pub enum LevelFilter {
    /// Nothing is traced.
    Off,
    /// Errors only.
    Error,
    /// Warnings and what is more important.
    Warn,
    /// Information and what is more important.
    Info,
    /// Debugging output and what is more important.
    Debug,
    /// Everything.
    Trace,
}

impl LevelFilter {
    /// The level of the filter, or `None` for the filter that lets nothing
    /// through.
    pub open spec fn level(self) -> Option<Level> {
        match self {
            LevelFilter::Off => None,
            LevelFilter::Error => Some(Level::Error),
            LevelFilter::Warn => Some(Level::Warn),
            LevelFilter::Info => Some(Level::Info),
            LevelFilter::Debug => Some(Level::Debug),
            LevelFilter::Trace => Some(Level::Trace),
        }
    }

    /// The level of the filter, or `None` for the filter that lets nothing
    /// through.
    pub fn into_level(self) -> (r: Option<Level>)
        ensures
            r == self.level(),
    {
        match self {
            LevelFilter::Off => None,
            LevelFilter::Error => Some(Level::Error),
            LevelFilter::Warn => Some(Level::Warn),
            LevelFilter::Info => Some(Level::Info),
            LevelFilter::Debug => Some(Level::Debug),
            LevelFilter::Trace => Some(Level::Trace),
        }
    }

    /// The filter that lets a level and what is more important through.
    pub fn from_level(level: Level) -> (r: LevelFilter)
        ensures
            r.level() == Some(level),
    {
        match level {
            Level::Error => LevelFilter::Error,
            Level::Warn => LevelFilter::Warn,
            Level::Info => LevelFilter::Info,
            Level::Debug => LevelFilter::Debug,
            Level::Trace => LevelFilter::Trace,
        }
    }
}

/// The level that a count of "quieter" and a count of "louder" give where
/// both are counted from the level of information: one step louder is
/// debugging output, more is everything; with no step louder, one step
/// quieter is warnings, more is errors only.
pub open spec fn level_around_info(quiet: u8, verbose: u8) -> Level {
    if verbose == 1 {
        Level::Debug
    } else if verbose > 1 {
        Level::Trace
    } else if quiet == 1 {
        Level::Warn
    } else if quiet > 1 {
        Level::Error
    } else {
        Level::Info
    }
}

/// The level that a count of "louder" gives where it is counted up from
/// errors only: each step lets one more level through, and four steps or more
/// let everything through.
pub open spec fn level_up_from_error(verbose: u8) -> Level {
    if verbose == 0 {
        Level::Error
    } else if verbose == 1 {
        Level::Warn
    } else if verbose == 2 {
        Level::Info
    } else if verbose == 3 {
        Level::Debug
    } else {
        Level::Trace
    }
}

/// Whether a level is one that the two counts give: counted around the level
/// of information, or counted up from errors only.
pub open spec fn is_effective_level(level: Level, quiet: u8, verbose: u8) -> bool {
    level == level_around_info(quiet, verbose) || level == level_up_from_error(verbose)
}

/// What the tracing setup asks of a configuration beyond the basic switches.
pub trait TracingConfigExt {
    /// The additional directives that the configuration holds, as a
    /// mathematical value. A configuration that says nothing of them leaves
    /// the value open.
    open spec fn extra_directives(&self) -> Option<Seq<char>> {
        arbitrary()
    }

    /// Should we enable stdout logging
    fn enable_stdout(&self) -> bool;

    /// Additional tracing directives
    fn directives(&self) -> (r: Option<&String>)
        ensures
            match self.extra_directives() {
                Some(text) => r matches Some(held) && held@ == text,
                None => r is None,
            },
    ;

    /// Current tracing level
    fn level(&self) -> Level;
}

/// The word that a filter starts the directives with. The filter that lets
/// nothing through starts them as the level of information does.
pub open spec fn base_directive(filter: LevelFilter) -> Seq<char> {
    match filter.level() {
        Some(Level::Trace) => "trace"@,
        Some(Level::Debug) => "debug"@,
        Some(Level::Info) => "info"@,
        Some(Level::Warn) => "warn"@,
        Some(Level::Error) => "error"@,
        None => "info"@,
    }
}

/// The directives for a filter and a configuration's additional directives:
/// the filter's word, then a comma and the additional directives where there
/// are any.
pub open spec fn directives_text(filter: LevelFilter, extra: Option<Seq<char>>) -> Seq<char> {
    match extra {
        Some(text) => base_directive(filter) + ","@ + text,
        None => base_directive(filter),
    }
}

/// The filter directives for a level filter and additional directives: the
/// filter's word, then a comma and the additional directives where there are
/// any.
pub fn directives_from(level_filter: LevelFilter, extra: Option<&String>) -> (r: String)
    ensures
        r@ == directives_text(
            level_filter,
            match extra {
                Some(text) => Some(text@),
                None => None,
            },
        ),
{
    let directives_base: &str = match level_filter.into_level() {
        Some(level) => match level {
            Level::Trace => "trace",
            Level::Debug => "debug",
            Level::Info => "info",
            Level::Warn => "warn",
            Level::Error => "error",
        },
        None => "info",
    };
    let mut text = String::from_str(directives_base);
    match extra {
        Some(extra) => {
            text.append(",");
            text.append(extra.as_str());
        },
        None => {},
    }
    text
}

/// The filter directives for a configuration and a level filter: those that
/// `directives_from` makes of the filter and of what the configuration gives
/// as its additional directives.
pub fn directives<T>(config: &T, level_filter: LevelFilter) -> (r: String) where
    T: TracingConfigExt,

    ensures
        r@ == directives_text(level_filter, config.extra_directives()),
{
    directives_from(level_filter, config.directives())
}

} // verus!
