//! Configuration: from the words of the command line to a monitoring window.
//!
//! The end time is given in local time, as year-month-day-hour:minute:second.
//! Reading it and placing it in the local time zone is the work of `chrono`;
//! what is done with the outcome is decided here.

use crate::number::{parse_u64, unsigned};
use crate::text::chars_of;
use crate::window::{ConfigError, MonitoringWindow};
use chrono::{Local, NaiveDateTime, TimeZone};
use vstd::prelude::*;

verus! {

/// A date and time without a time zone, as `chrono` holds it.
#[verifier::external_type_specification]
#[verifier::external_body]
pub struct ExNaiveDateTime(chrono::NaiveDateTime);

/// Whether `chrono` reads a date and time from `text` under `format`.
pub uninterp spec fn datetime_is_read(text: Seq<char>, format: Seq<char>) -> bool;

/// The format of the end time.
pub open spec fn end_time_format() -> Seq<char> {
    "%Y-%m-%d-%H:%M:%S"@
}

/// The period that `text` denotes: a numeral of 64 bits that is not zero.
pub open spec fn interval_of(text: Seq<char>) -> Option<u64> {
    match unsigned(text, u64::MAX as nat) {
        Some(seconds) => if seconds > 0 {
            Some(seconds as u64)
        } else {
            None
        },
        None => None,
    }
}

/// Calls `chrono::NaiveDateTime::parse_from_str`, and keeps what it read.
/// The call fails or succeeds by `text` and `format` alone; that is all that
/// is claimed of it.
#[verifier::external_body]
fn read_naive_datetime(text: &str, format: &str) -> (moment: Option<NaiveDateTime>)
    ensures
        moment is Some <==> datetime_is_read(text@, format@),
{
    NaiveDateTime::parse_from_str(text, format).ok()
}

/// Calls `chrono::TimeZone::from_local_datetime` on `chrono::Local`, keeps the
/// outcome where `MappedLocalTime::single` finds it to be one moment, and
/// returns that moment's `DateTime::timestamp`, the seconds since the epoch.
/// The outcome depends on the time zone of the machine, so nothing is claimed
/// of it.
#[verifier::external_body]
fn local_timestamp(moment: &NaiveDateTime) -> (seconds: Option<i64>) {
    match Local.from_local_datetime(moment).single() {
        Some(at) => Some(at.timestamp()),
        None => None,
    }
}

/// Reads the end time and places it in the local time zone: the seconds
/// since the epoch of the moment that `text` names. A text that is not in
/// the format is refused as invalid. One that is in the format is refused as
/// ambiguous where local time has no such moment or has it twice, which the
/// time zone of the machine decides.
pub fn end_timestamp(text: &str) -> (r: Result<i64, ConfigError>)
    ensures
        !datetime_is_read(text@, end_time_format()) ==> r == Err::<i64, ConfigError>(
            ConfigError::InvalidEndTime,
        ),
        datetime_is_read(text@, end_time_format()) ==> r is Ok || r == Err::<i64, ConfigError>(
            ConfigError::AmbiguousEndTime,
        ),
{
    match read_naive_datetime(text, "%Y-%m-%d-%H:%M:%S") {
        None => Err(ConfigError::InvalidEndTime),
        Some(moment) => match local_timestamp(&moment) {
            None => Err(ConfigError::AmbiguousEndTime),
            Some(seconds) => Ok(seconds),
        },
    }
}

/// Reads the sampling interval.
pub fn parse_interval(text: &str) -> (r: Result<u64, ConfigError>)
    ensures
        r == (match interval_of(text@) {
            Some(seconds) => Ok::<u64, ConfigError>(seconds),
            None => Err(ConfigError::InvalidInterval),
        }),
{
    let chars = chars_of(text);
    match parse_u64(chars.as_slice()) {
        Some(seconds) => if seconds > 0 {
            Ok(seconds)
        } else {
            Err(ConfigError::InvalidInterval)
        },
        None => Err(ConfigError::InvalidInterval),
    }
}

/// Reads the backup interval.
pub fn parse_backup_interval(text: &str) -> (r: Result<u64, ConfigError>)
    ensures
        r == (match interval_of(text@) {
            Some(seconds) => Ok::<u64, ConfigError>(seconds),
            None => Err(ConfigError::InvalidBackupInterval),
        }),
{
    match parse_interval(text) {
        Ok(seconds) => Ok(seconds),
        Err(_) => Err(ConfigError::InvalidBackupInterval),
    }
}

/// The window of a run that starts at `now`, from the words of the command
/// line. The intervals are read first, the sampling interval before the
/// backup interval, then the end time; the first that fails is reported.
/// Once all are read, the window is the one that `MonitoringWindow::new`
/// gives for them.
pub fn configure(end_time: &str, interval: &str, backup_interval: &str, now: u64) -> (r: Result<
    MonitoringWindow,
    ConfigError,
>)
    ensures
        interval_of(interval@) is None ==> r == Err::<MonitoringWindow, ConfigError>(
            ConfigError::InvalidInterval,
        ),
        interval_of(interval@) is Some && interval_of(backup_interval@) is None ==> r == Err::<
            MonitoringWindow,
            ConfigError,
        >(ConfigError::InvalidBackupInterval),
        interval_of(interval@) is Some && interval_of(backup_interval@) is Some
            && !datetime_is_read(end_time@, end_time_format()) ==> r == Err::<
            MonitoringWindow,
            ConfigError,
        >(ConfigError::InvalidEndTime),
        interval_of(interval@) is Some && interval_of(backup_interval@) is Some
            && datetime_is_read(end_time@, end_time_format()) ==> (match r {
            Ok(window) => {
                &&& window.wf()
                &&& window.start_ts == now
                &&& window.end_ts > now
                &&& window.interval_sec == interval_of(interval@).unwrap()
                &&& window.backup_interval_sec == interval_of(backup_interval@).unwrap()
            },
            Err(e) => e == ConfigError::AmbiguousEndTime || e == ConfigError::EndTimeNotInFuture,
        }),
{
    let interval_sec = match parse_interval(interval) {
        Ok(seconds) => seconds,
        Err(e) => {
            return Err(e);
        },
    };
    let backup_interval_sec = match parse_backup_interval(backup_interval) {
        Ok(seconds) => seconds,
        Err(e) => {
            return Err(e);
        },
    };
    let end_ts = match end_timestamp(end_time) {
        Ok(seconds) => seconds,
        Err(e) => {
            return Err(e);
        },
    };
    MonitoringWindow::new(now, end_ts, interval_sec, backup_interval_sec)
}

} // verus!
