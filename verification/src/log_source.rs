//! Which sources the log page keeps.

use vstd::prelude::*;

verus! {

/// Sources of log lines the log page keeps.
#[derive(Clone, Copy, Debug, PartialEq, Eq, Structural)]
pub enum LogSourceFilter {
    /// Procora's diagnostics and the child processes' output.
    All,
    /// Only diagnostics written by Procora.
    Procora,
    /// Only the child processes' stdout and stderr.
    Child,
}

/// Label of a source filter.
pub open spec fn source_label(filter: LogSourceFilter) -> Seq<char> {
    match filter {
        LogSourceFilter::All => "全部"@,
        LogSourceFilter::Procora => "Procora"@,
        LogSourceFilter::Child => "子进程"@,
    }
}

impl LogSourceFilter {
    /// The filter that follows, wrapping around.
    pub open spec fn following(self) -> LogSourceFilter {
        match self {
            LogSourceFilter::All => LogSourceFilter::Procora,
            LogSourceFilter::Procora => LogSourceFilter::Child,
            LogSourceFilter::Child => LogSourceFilter::All,
        }
    }

    /// Label shown for the filter.
    pub fn label(self) -> (result: &'static str)
        ensures
            result@ == source_label(self),
    {
        match self {
            LogSourceFilter::All => "全部",
            LogSourceFilter::Procora => "Procora",
            LogSourceFilter::Child => "子进程",
        }
    }

    /// Switches to the next filter.
    pub fn next(self) -> (result: LogSourceFilter)
        ensures
            result == self.following(),
    {
        match self {
            LogSourceFilter::All => LogSourceFilter::Procora,
            LogSourceFilter::Procora => LogSourceFilter::Child,
            LogSourceFilter::Child => LogSourceFilter::All,
        }
    }
}

} // verus!
