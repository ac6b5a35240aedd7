//! Trend taxonomy: a metric's trajectory over an evaluation window is
//! classified by comparing its past, overall and present averages.

use vstd::prelude::*;

verus! {

/// Five-way classification of a metric's trajectory. `Hump` is a
/// higher-than-endpoints average, `Dip` a lower one.
#[derive(Clone, Copy, Debug, PartialEq, Eq, Structural)]
pub enum Trend {
    /// past < overall < present: the metric moves consistently upward.
    Rising,
    /// past > overall > present: the metric moves consistently downward.
    Falling,
    /// past <= overall and overall > present: a higher middle average.
    Hump,
    /// past >= overall and overall < present: a lower middle average.
    Dip,
    /// None of the above, e.g. past == overall == present.
    Flat,
}

/// Classify a trajectory from its past, overall and present averages.
/// The first four conditions are mutually exclusive, so the order of the
/// tests does not matter.
pub open spec fn classify(past: int, overall: int, present: int) -> Trend {
    if past < overall && overall < present {
        Trend::Rising
    } else if past > overall && overall > present {
        Trend::Falling
    } else if past <= overall && overall > present {
        Trend::Hump
    } else if past >= overall && overall < present {
        Trend::Dip
    } else {
        Trend::Flat
    }
}

} // verus!
