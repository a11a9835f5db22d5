use vstd::prelude::*;
use crate::color::CrabFetchColor;
use crate::config::Configuration;
use crate::module::{entry_styled, module_styled, style_entry, style_module};
use crate::text::{copy_str, replace_str, seq_replace};

verus! {

/// How long the system has been up, in whole seconds.
pub struct UptimeInfo {
    pub uptime: u64,
}

/// The options of the uptime entry.
pub struct UptimeConfiguration {
    pub title: String,
    pub title_color: Option<CrabFetchColor>,
    pub title_bold: Option<bool>,
    pub title_italic: Option<bool>,
    pub separator: Option<String>,
    pub format: Option<String>,
}

/// What humantime's `format_duration` writes for a duration of whole seconds.
pub uninterp spec fn humantime_duration(secs: u64) -> Seq<char>;

/// Trusted: humantime's `format_duration` on a duration of `secs` whole seconds, written with
/// `to_string` (years, months, days, hours, minutes and seconds that are not zero, such as
/// `1day 2h 3m`). The text depends on the duration alone and is named `humantime_duration`.
#[verifier::external_body]
fn format_duration(secs: u64) -> (r: String)
    ensures
        r@ == humantime_duration(secs),
{
    humantime::format_duration(std::time::Duration::new(secs, 0)).to_string()
}

/// The format of the entry: the configured one, or `{time}`.
pub open spec fn uptime_format(config: Configuration) -> Seq<char> {
    match config.uptime.format {
        Some(f) => f@,
        None => "{time}"@,
    }
}

impl UptimeInfo {
    /// Text with `{time}` filled in.
    pub open spec fn filled(&self, text: Seq<char>) -> Seq<char> {
        seq_replace(text, "{time}"@, humantime_duration(self.uptime))
    }

    /// No time up.
    pub fn new() -> (r: UptimeInfo)
        ensures
            r.uptime == 0,
    {
        UptimeInfo { uptime: 0 }
    }

    /// Fills the `{time}` placeholder of `text` with the uptime written out.
    pub fn replace_placeholders(&self, text: &str, _config: &Configuration) -> (r: String)
        ensures
            r@ == self.filled(text@),
    {
        proof {
            reveal_strlit("{time}");
        }
        let t = format_duration(self.uptime);
        replace_str(text, "{time}", t.as_str())
    }

    /// The entry: title and format with the uptime filled in.
    pub fn style(&self, config: &Configuration) -> (r: (String, String))
        ensures
            module_styled(
                r,
                *config,
                config.uptime.title_color,
                config.uptime.title_bold,
                config.uptime.title_italic,
                config.uptime.separator,
                self.filled(config.uptime.title@),
                self.filled(uptime_format(*config)),
            ),
    {
        let format: String = match &config.uptime.format {
            Some(f) => copy_str(f.as_str()),
            None => copy_str("{time}"),
        };
        let title = self.replace_placeholders(config.uptime.title.as_str(), config);
        let value = self.replace_placeholders(format.as_str(), config);
        style_module(
            config,
            &config.uptime.title_color,
            config.uptime.title_bold,
            config.uptime.title_italic,
            &config.uptime.separator,
            title.as_str(),
            value.as_str(),
        )
    }

    /// The entry when nothing could be found: `Unknown` for the title's `{time}` and as the value.
    pub fn unknown_output(config: &Configuration) -> (r: (String, String))
        ensures
            entry_styled(
                r,
                *config,
                config.uptime.title_color,
                config.uptime.title_bold,
                config.uptime.title_italic,
                config.uptime.separator,
                seq_replace(config.uptime.title@, "{time}"@, "Unknown"@),
                "Unknown"@,
            ),
    {
        proof {
            reveal_strlit("{time}");
        }
        let title = replace_str(config.uptime.title.as_str(), "{time}", "Unknown");
        style_entry(
            config,
            &config.uptime.title_color,
            config.uptime.title_bold,
            config.uptime.title_italic,
            &config.uptime.separator,
            title.as_str(),
            "Unknown",
        )
    }
}

} // verus!
