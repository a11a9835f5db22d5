use vstd::prelude::*;
use crate::color::CrabFetchColor;
use crate::config::Configuration;
use crate::module::{entry_styled, module_styled, style_entry, style_module};
use std::fmt::Write;

verus! {

/// A moment in time as the clock gives it: seconds and nanoseconds since the Unix epoch, and
/// the local time zone's offset from UTC in seconds.
pub struct DateTimeInfo {
    pub secs: i64,
    pub nanos: u32,
    pub offset_secs: i32,
}

/// What chrono writes for the moment `secs` and `nanos` after the Unix epoch, seen in the time
/// zone `offset` seconds east of UTC, with the strftime-style `format`; `None` when chrono
/// cannot write it.
pub uninterp spec fn chrono_formatted(secs: i64, nanos: u32, offset: i32, format: Seq<char>) -> Option<Seq<char>>;

/// Trusted: chrono's `DateTime::from_timestamp`, `FixedOffset::east_opt`, `with_timezone` and
/// `format`, written into a string. The text is named by `chrono_formatted`; as chrono's source
/// shows, there is none for an offset of a whole day or more (`east_opt` refuses it), nor when
/// the moment is out of chrono's range or the format holds an item that cannot be written.
#[verifier::external_body]
fn format_moment(secs: i64, nanos: u32, offset: i32, format: &str) -> (r: Option<String>)
    ensures
        match r {
            Some(s) => chrono_formatted(secs, nanos, offset, format@) == Some(s@),
            None => chrono_formatted(secs, nanos, offset, format@) is None,
        },
        !(-86400 < offset < 86400) ==> r is None,
{
    let moment = chrono::DateTime::from_timestamp(secs, nanos)?;
    let zone = chrono::FixedOffset::east_opt(offset)?;
    let mut out = String::new();
    write!(out, "{}", moment.with_timezone(&zone).format(format)).ok()?;
    Some(out)
}

/// The options of the datetime entry.
pub struct DateTimeConfiguration {
    pub title: String,
    pub title_color: Option<CrabFetchColor>,
    pub title_bold: Option<bool>,
    pub title_italic: Option<bool>,
    pub separator: Option<String>,
    pub format: String,
}

impl DateTimeInfo {
    /// The entry: the configured title, and the moment written with the configured format, with
    /// its color placeholders applied; `Unknown` when the moment cannot be written with that
    /// format.
    pub fn style(&self, config: &Configuration) -> (r: (String, String))
        ensures
            match chrono_formatted(self.secs, self.nanos, self.offset_secs, config.datetime.format@) {
                Some(v) => module_styled(
                    r,
                    *config,
                    config.datetime.title_color,
                    config.datetime.title_bold,
                    config.datetime.title_italic,
                    config.datetime.separator,
                    config.datetime.title@,
                    v,
                ),
                None => entry_styled(
                    r,
                    *config,
                    config.datetime.title_color,
                    config.datetime.title_bold,
                    config.datetime.title_italic,
                    config.datetime.separator,
                    config.datetime.title@,
                    "Unknown"@,
                ),
            },
    {
        let c = &config.datetime;
        match format_moment(self.secs, self.nanos, self.offset_secs, c.format.as_str()) {
            Some(value) => style_module(config, &c.title_color, c.title_bold, c.title_italic, &c.separator, c.title.as_str(), value.as_str()),
            None => Self::unknown_output(config),
        }
    }

    /// The entry when the date and time could not be read.
    pub fn unknown_output(config: &Configuration) -> (r: (String, String))
        ensures
            entry_styled(
                r,
                *config,
                config.datetime.title_color,
                config.datetime.title_bold,
                config.datetime.title_italic,
                config.datetime.separator,
                config.datetime.title@,
                "Unknown"@,
            ),
    {
        let c = &config.datetime;
        style_entry(config, &c.title_color, c.title_bold, c.title_italic, &c.separator, c.title.as_str(), "Unknown")
    }
}

} // verus!
