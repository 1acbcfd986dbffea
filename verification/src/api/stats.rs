//! Queries on the statistics of the service.

use vstd::prelude::*;
use vstd::string::*;

verus! {

/// How many days a time series covers when the query names no number.
pub const DEFAULT_DAYS: u32 = 30;

/// Which time series to show.
#[derive(Debug, Clone)]
pub struct TimeSeriesQuery {
    /// hour, day, week, month
    pub interval: Option<String>,
    pub days: Option<u32>,
}

impl TimeSeriesQuery {
    /// The interval of the series: the query's, or "day".
    pub fn interval_or_default(&self) -> (interval: String)
        ensures
            interval@ == (match self.interval {
                Some(given) => given@,
                None => "day"@,
            }),
    {
        match &self.interval {
            Some(given) => given.clone(),
            None => String::from_str("day"),
        }
    }

    /// The number of days of the series: the query's, or 30.
    pub fn days_or_default(&self) -> (days: u32)
        ensures
            days == (match self.days {
                Some(days) => days,
                None => DEFAULT_DAYS,
            }),
    {
        match self.days {
            Some(days) => days,
            None => DEFAULT_DAYS,
        }
    }
}

} // verus!
