//! A timer for measuring how long a block of code ran.
//!
//! A timer remembers its name, the moment it was started, the level its
//! completion message should be logged at, whether a message should go out
//! at all, and an optional extra message.  Reading the clock is inherently
//! nondeterministic, so the elapsed readings carry no contracts; the scaling
//! arithmetic and the bookkeeping of the flags and message are exact.  The
//! logging itself — a side effect — is the application's job, done when it
//! drops its wrapper around this type.

use vstd::prelude::*;
use vstd::string::StringExecFns;

verus! {

/// The levels a timer's completion message may be logged at.
#[derive(Debug, Clone, Copy, PartialEq, Eq, Structural)]
pub enum LogLevel {
    Error,
    Warn,
    Info,
    Debug,
    Trace,
}

/// The unit a duration is best displayed in.
#[derive(Debug, Clone, Copy, PartialEq, Eq, Structural)]
pub enum TimeUnit {
    Seconds,
    Millis,
    Micros,
    Nanos,
}

#[verifier::external_type_specification]
#[verifier::external_body]
pub struct ExInstant(std::time::Instant);

/// Relies on `Instant::now`: a clock reading, of which nothing can be
/// promised.
pub assume_specification[ std::time::Instant::now ]() -> std::time::Instant;

/// Relies on `Instant::elapsed`: the time since the reading, of which
/// nothing can be promised either.
pub assume_specification[ std::time::Instant::elapsed ](
    i: &std::time::Instant,
) -> core::time::Duration;

/// Relies on `Instant::clone`: an `Instant` is `Copy`, so its clone is the
/// same reading.
pub assume_specification[ <std::time::Instant as Clone>::clone ](
    i: &std::time::Instant,
) -> (r: std::time::Instant)
    ensures
        r == *i,
;

/// Relies on `Duration::as_secs`: the whole seconds of the duration.
pub assume_specification[ core::time::Duration::as_secs ](d: &core::time::Duration) -> u64;

/// Relies on `Duration::subsec_nanos`: the fractional part in nanoseconds,
/// which its documentation promises is below one billion.
pub assume_specification[ core::time::Duration::subsec_nanos ](d: &core::time::Duration) -> (r:
    u32)
    ensures
        r < 1_000_000_000,
;

/// `v` clamped into a `u64`.
pub open spec fn saturating_to_u64(v: int) -> u64
    recommends
        v >= 0,
{
    if v <= u64::MAX {
        v as u64
    } else {
        u64::MAX
    }
}

/// `seconds` whole seconds and `subsec_nanos` leftover nanoseconds, as
/// whole milliseconds, clamped at the largest `u64`.
pub fn scale_millis(seconds: u64, subsec_nanos: u64) -> (r: u64)
    ensures
        r == saturating_to_u64(seconds * 1000 + subsec_nanos / 1_000_000),
{
    let frac = subsec_nanos / 1_000_000;
    match seconds.checked_mul(1000) {
        Some(base) => base.saturating_add(frac),
        None => u64::MAX,
    }
}

/// `seconds` whole seconds and `subsec_nanos` leftover nanoseconds, as
/// whole microseconds, clamped at the largest `u64`.
pub fn scale_micros(seconds: u64, subsec_nanos: u64) -> (r: u64)
    ensures
        r == saturating_to_u64(seconds * 1_000_000 + subsec_nanos / 1_000),
{
    let frac = subsec_nanos / 1_000;
    match seconds.checked_mul(1_000_000) {
        Some(base) => base.saturating_add(frac),
        None => u64::MAX,
    }
}

/// `seconds` whole seconds and `subsec_nanos` leftover nanoseconds, as
/// whole nanoseconds, clamped at the largest `u64`.
pub fn scale_nanos(seconds: u64, subsec_nanos: u64) -> (r: u64)
    ensures
        r == saturating_to_u64(seconds * 1_000_000_000 + subsec_nanos),
{
    match seconds.checked_mul(1_000_000_000) {
        Some(base) => base.saturating_add(subsec_nanos),
        None => u64::MAX,
    }
}

/// The display scale for an elapsed time: seconds when there is at least
/// one, else milliseconds, else microseconds, else nanoseconds.  Returns
/// the value at that scale, the value one scale finer, and the unit.
pub fn display_scale(seconds: u64, millis: u64, micros: u64, nanos: u64) -> (r: (u64, u64, TimeUnit))
    ensures
        r == if seconds > 0 {
            (seconds, millis, TimeUnit::Seconds)
        } else if millis > 0 {
            (millis, micros, TimeUnit::Millis)
        } else if micros > 0 {
            (micros, nanos, TimeUnit::Micros)
        } else {
            (nanos, saturating_to_u64(nanos * 1000), TimeUnit::Nanos)
        },
{
    if seconds > 0 {
        (seconds, millis, TimeUnit::Seconds)
    } else if millis > 0 {
        (millis, micros, TimeUnit::Millis)
    } else if micros > 0 {
        (micros, nanos, TimeUnit::Micros)
    } else {
        let finer = match nanos.checked_mul(1000) {
            Some(v) => v,
            None => u64::MAX,
        };
        (nanos, finer, TimeUnit::Nanos)
    }
}

/// A named timer, started when constructed.
#[derive(Debug, Clone)]
pub struct Timer {
    name: String,
    start_time: std::time::Instant,
    log_level: LogLevel,
    log_on_drop: bool,
    message: Option<String>,
}

impl Timer {
    /// The timer's name.
    pub closed spec fn spec_name(&self) -> Seq<char> {
        self.name@
    }

    /// The level the completion message should be logged at.
    pub closed spec fn spec_level(&self) -> LogLevel {
        self.log_level
    }

    /// Whether a completion message should go out at all.
    pub closed spec fn spec_log_on_drop(&self) -> bool {
        self.log_on_drop
    }

    /// The extra message, if one was set.
    pub closed spec fn spec_message(&self) -> Option<Seq<char>> {
        match self.message {
            Some(m) => Some(m@),
            None => None,
        }
    }

    /// A new timer at Trace level that asks for a message only when
    /// dropped.
    pub fn new(name: &str) -> (r: Timer)
        ensures
            r.spec_name() == name@,
            r.spec_level() == LogLevel::Trace,
            r.spec_log_on_drop(),
            r.spec_message() is None,
    {
        Timer {
            name: name.to_owned(),
            start_time: std::time::Instant::now(),
            log_level: LogLevel::Trace,
            log_on_drop: true,
            message: None,
        }
    }

    /// A new timer at the given level.  The caller logs the starting
    /// message itself; the level must be chosen now because of it.
    pub fn bracket_timer(name: &str, log_level: LogLevel) -> (r: Timer)
        ensures
            r.spec_name() == name@,
            r.spec_level() == log_level,
            r.spec_log_on_drop(),
            r.spec_message() is None,
    {
        let mut tmr = Timer::new(name);
        tmr.log_level = log_level;
        tmr
    }

    /// Sets or unsets whether a completion message should go out.
    pub fn log_on_drop(self, log_on_drop: bool) -> (r: Timer)
        ensures
            r.spec_name() == self.spec_name(),
            r.spec_level() == self.spec_level(),
            r.spec_log_on_drop() == log_on_drop,
            r.spec_message() == self.spec_message(),
    {
        let mut tmr = self;
        tmr.log_on_drop = log_on_drop;
        tmr
    }

    /// Sets the logging level; the default is Trace.
    pub fn at_level(self, log_level: LogLevel) -> (r: Timer)
        ensures
            r.spec_name() == self.spec_name(),
            r.spec_level() == log_level,
            r.spec_log_on_drop() == self.spec_log_on_drop(),
            r.spec_message() == self.spec_message(),
    {
        let mut tmr = self;
        tmr.log_level = log_level;
        tmr
    }

    /// The timer's name.
    pub fn name(&self) -> (r: &String)
        ensures
            r@ == self.spec_name(),
    {
        &self.name
    }

    /// The level the completion message should be logged at.
    pub fn level(&self) -> (r: LogLevel)
        ensures
            r == self.spec_level(),
    {
        self.log_level
    }

    /// Whether a completion message should go out.
    pub fn should_log_on_drop(&self) -> (r: bool)
        ensures
            r == self.spec_log_on_drop(),
    {
        self.log_on_drop
    }

    /// The extra message, if one was set.
    pub fn message(&self) -> (r: &Option<String>)
        ensures
            match r {
                Some(m) => self.spec_message() == Some(m@),
                None => self.spec_message() is None,
            },
    {
        &self.message
    }

    /// How long the timer has been running.  The value depends on the
    /// clock, so nothing is promised of it.
    pub fn elapsed(&self) -> core::time::Duration {
        self.start_time.elapsed()
    }

    /// Whole seconds elapsed.
    pub fn seconds(&self) -> u64 {
        self.elapsed().as_secs()
    }

    /// Whole milliseconds elapsed, clamped at the largest `u64`.
    pub fn millis(&self) -> u64 {
        let d = self.elapsed();
        scale_millis(d.as_secs(), d.subsec_nanos() as u64)
    }

    /// Whole microseconds elapsed, clamped at the largest `u64`.
    pub fn micros(&self) -> u64 {
        let d = self.elapsed();
        scale_micros(d.as_secs(), d.subsec_nanos() as u64)
    }

    /// Whole nanoseconds elapsed, clamped at the largest `u64`.
    pub fn nanos(&self) -> u64 {
        let d = self.elapsed();
        scale_nanos(d.as_secs(), d.subsec_nanos() as u64)
    }

    /// Replaces the extra message shown with the completion message.  An
    /// empty string clears it.
    pub fn set_message(&mut self, message: &str)
        ensures
            final (self).spec_message() == if message@.len() == 0 {
                Option::<Seq<char>>::None
            } else {
                Option::<Seq<char>>::Some(message@)
            },
            final (self).spec_name() == old(self).spec_name(),
            final (self).spec_level() == old(self).spec_level(),
            final (self).spec_log_on_drop() == old(self).spec_log_on_drop(),
    {
        if message.is_empty() {
            self.message = None;
        } else {
            self.message = Some(message.to_owned());
        }
    }

    /// Appends to the extra message, starting one when none was set.  Any
    /// separating whitespace is the caller's to include.
    pub fn append_message(&mut self, message: &str)
        ensures
            final (self).spec_message() == match old(self).spec_message() {
                Some(cur) => Some(cur + message@),
                None => Some(message@),
            },
            final (self).spec_name() == old(self).spec_name(),
            final (self).spec_level() == old(self).spec_level(),
            final (self).spec_log_on_drop() == old(self).spec_log_on_drop(),
    {
        let current = self.message.take();
        match current {
            None => {
                self.message = Some(message.to_owned());
            },
            Some(mut cur) => {
                cur.append(message);
                self.message = Some(cur);
            },
        }
    }
}

} // verus!
