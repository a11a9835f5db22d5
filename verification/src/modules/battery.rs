use vstd::prelude::*;
use crate::color::CrabFetchColor;
use crate::config::Configuration;
use crate::module::{
    entry_styled, module_styled, percent_rendered, process_percentage_placeholder, style_entry,
    style_module, Percentage,
};
use crate::text::{replace_str, seq_replace};

verus! {

/// The options of the battery entry.
pub struct BatteryConfiguration {
    pub title: String,
    pub title_color: Option<CrabFetchColor>,
    pub title_bold: Option<bool>,
    pub title_italic: Option<bool>,
    pub separator: Option<String>,
    pub format: String,
    pub progress_left_border: Option<String>,
    pub progress_right_border: Option<String>,
    pub progress_progress: Option<String>,
    pub progress_empty: Option<String>,
    pub progress_target_length: Option<u8>,
    pub decimal_places: Option<u32>,
}

/// A battery, as the entry writes it: its model name, its charge as read (`capacity`, written
/// out), and its charge rounded for `{percent}`.
pub struct BatteryInfo {
    pub model_name: String,
    pub capacity: String,
    pub percentage: Percentage,
}

impl BatteryInfo {
    /// `text` with `{percent}` replaced by `percent`, then `{model_name}`, `{percentage}` and
    /// `{bar}` filled in (the bar is left empty).
    pub open spec fn filled(&self, text: Seq<char>, percent: Seq<char>) -> Seq<char> {
        seq_replace(
            seq_replace(
                seq_replace(seq_replace(text, "{percent}"@, percent), "{model_name}"@, self.model_name@),
                "{percentage}"@,
                self.capacity@,
            ),
            "{bar}"@,
            Seq::<char>::empty(),
        )
    }

    /// Fills in the placeholders of `text`.
    pub fn replace_placeholders(&self, text: &str, config: &Configuration) -> (r: String)
        ensures
            exists|p: Seq<char>|
                percent_rendered(*config, self.percentage.text@, self.percentage.whole, p) && r@ == self.filled(
                    text@,
                    p,
                ),
    {
        proof {
            reveal_strlit("{model_name}");
            reveal_strlit("{percentage}");
            reveal_strlit("{bar}");
            reveal_strlit("");
        }
        let t0 = process_percentage_placeholder(text, &self.percentage, config);
        let ghost p = choose|p: Seq<char>|
            percent_rendered(*config, self.percentage.text@, self.percentage.whole, p) && t0@ == seq_replace(
                text@,
                "{percent}"@,
                p,
            );
        let t1 = replace_str(t0.as_str(), "{model_name}", self.model_name.as_str());
        let t2 = replace_str(t1.as_str(), "{percentage}", self.capacity.as_str());
        let r = replace_str(t2.as_str(), "{bar}", "");
        assert(""@ =~= Seq::<char>::empty());
        assert(r@ == self.filled(text@, p));
        r
    }

    /// The entry: the title and the format with their placeholders filled in.
    pub fn style(&self, config: &Configuration) -> (r: (String, String))
        ensures
            exists|pt: Seq<char>, pv: Seq<char>|
                percent_rendered(*config, self.percentage.text@, self.percentage.whole, pt) && percent_rendered(
                    *config,
                    self.percentage.text@,
                    self.percentage.whole,
                    pv,
                ) && module_styled(
                    r,
                    *config,
                    config.battery.title_color,
                    config.battery.title_bold,
                    config.battery.title_italic,
                    config.battery.separator,
                    self.filled(config.battery.title@, pt),
                    self.filled(config.battery.format@, pv),
                ),
    {
        let title = self.replace_placeholders(config.battery.title.as_str(), config);
        let value = self.replace_placeholders(config.battery.format.as_str(), config);
        let c = &config.battery;
        style_module(config, &c.title_color, c.title_bold, c.title_italic, &c.separator, title.as_str(), value.as_str())
    }

    /// The entry when no battery could be read: `Unknown` for each detail.
    pub fn unknown_output(config: &Configuration) -> (r: (String, String))
        ensures
            entry_styled(
                r,
                *config,
                config.battery.title_color,
                config.battery.title_bold,
                config.battery.title_italic,
                config.battery.separator,
                seq_replace(
                    seq_replace(seq_replace(config.battery.title@, "{model_name}"@, "Unknown"@), "{percentage}"@, "Unknown"@),
                    "{bar}"@,
                    Seq::<char>::empty(),
                ),
                "Unknown"@,
            ),
    {
        proof {
            reveal_strlit("{model_name}");
            reveal_strlit("{percentage}");
            reveal_strlit("{bar}");
            reveal_strlit("");
        }
        let c = &config.battery;
        let t0 = replace_str(c.title.as_str(), "{model_name}", "Unknown");
        let t1 = replace_str(t0.as_str(), "{percentage}", "Unknown");
        let title = replace_str(t1.as_str(), "{bar}", "");
        assert(""@ =~= Seq::<char>::empty());
        style_entry(config, &c.title_color, c.title_bold, c.title_italic, &c.separator, title.as_str(), "Unknown")
    }
}

} // verus!
