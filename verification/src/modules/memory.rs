use vstd::prelude::*;
use crate::color::CrabFetchColor;
use crate::config::Configuration;
use crate::module::{
    entry_styled, module_styled, percent_rendered, process_percentage_placeholder, style_entry,
    style_module, Percentage,
};
use crate::text::{replace_str, seq_replace};

verus! {

/// The options of the memory entry.
pub struct MemoryConfiguration {
    pub title: String,
    pub title_color: Option<CrabFetchColor>,
    pub title_bold: Option<bool>,
    pub title_italic: Option<bool>,
    pub separator: Option<String>,
    pub format: String,
    pub progress_left_border: Option<String>,
    pub progress_right_border: Option<String>,
    pub progress_progress: Option<String>,
    pub progress_empty: Option<String>,
    pub progress_target_length: Option<u8>,
    pub use_ibis: Option<bool>,
    pub decimal_places: Option<u32>,
}

/// Memory in use, as the entry writes it: the used and total sizes (already written with their
/// units) and the share used.
pub struct MemoryInfo {
    pub used: String,
    pub max: String,
    pub percentage: Percentage,
}

impl MemoryInfo {
    /// `text` with `{percent}` replaced by `percent`, then `{used}`, `{max}` and `{bar}` filled
    /// in (the bar is left empty).
    pub open spec fn filled(&self, text: Seq<char>, percent: Seq<char>) -> Seq<char> {
        seq_replace(
            seq_replace(seq_replace(seq_replace(text, "{percent}"@, percent), "{used}"@, self.used@), "{max}"@, self.max@),
            "{bar}"@,
            Seq::<char>::empty(),
        )
    }

    /// Fills in the placeholders of `text`.
    pub fn replace_placeholders(&self, text: &str, config: &Configuration) -> (r: String)
        ensures
            exists|p: Seq<char>|
                percent_rendered(*config, self.percentage.text@, self.percentage.whole, p) && r@ == self.filled(
                    text@,
                    p,
                ),
    {
        proof {
            reveal_strlit("{used}");
            reveal_strlit("{max}");
            reveal_strlit("{bar}");
            reveal_strlit("");
        }
        let t0 = process_percentage_placeholder(text, &self.percentage, config);
        let ghost p = choose|p: Seq<char>|
            percent_rendered(*config, self.percentage.text@, self.percentage.whole, p) && t0@ == seq_replace(
                text@,
                "{percent}"@,
                p,
            );
        let t1 = replace_str(t0.as_str(), "{used}", self.used.as_str());
        let t2 = replace_str(t1.as_str(), "{max}", self.max.as_str());
        let r = replace_str(t2.as_str(), "{bar}", "");
        assert(""@ =~= Seq::<char>::empty());
        assert(r@ == self.filled(text@, p));
        r
    }

    /// The entry: the title and the format with their placeholders filled in.
    pub fn style(&self, config: &Configuration) -> (r: (String, String))
        ensures
            exists|pt: Seq<char>, pv: Seq<char>|
                percent_rendered(*config, self.percentage.text@, self.percentage.whole, pt) && percent_rendered(
                    *config,
                    self.percentage.text@,
                    self.percentage.whole,
                    pv,
                ) && module_styled(
                    r,
                    *config,
                    config.memory.title_color,
                    config.memory.title_bold,
                    config.memory.title_italic,
                    config.memory.separator,
                    self.filled(config.memory.title@, pt),
                    self.filled(config.memory.format@, pv),
                ),
    {
        let title = self.replace_placeholders(config.memory.title.as_str(), config);
        let value = self.replace_placeholders(config.memory.format.as_str(), config);
        let c = &config.memory;
        style_module(config, &c.title_color, c.title_bold, c.title_italic, &c.separator, title.as_str(), value.as_str())
    }

    /// The entry when memory could not be read: `Unknown` for each detail.
    pub fn unknown_output(config: &Configuration) -> (r: (String, String))
        ensures
            entry_styled(
                r,
                *config,
                config.memory.title_color,
                config.memory.title_bold,
                config.memory.title_italic,
                config.memory.separator,
                seq_replace(
                    seq_replace(
                        seq_replace(seq_replace(config.memory.title@, "{used}"@, "Unknown"@), "{max}"@, "Unknown"@),
                        "{bar}"@,
                        Seq::<char>::empty(),
                    ),
                    "{percentage}"@,
                    "Unknown"@,
                ),
                "Unknown"@,
            ),
    {
        proof {
            reveal_strlit("{used}");
            reveal_strlit("{max}");
            reveal_strlit("{bar}");
            reveal_strlit("{percentage}");
            reveal_strlit("");
        }
        let c = &config.memory;
        let t0 = replace_str(c.title.as_str(), "{used}", "Unknown");
        let t1 = replace_str(t0.as_str(), "{max}", "Unknown");
        let t2 = replace_str(t1.as_str(), "{bar}", "");
        let title = replace_str(t2.as_str(), "{percentage}", "Unknown");
        assert(""@ =~= Seq::<char>::empty());
        style_entry(config, &c.title_color, c.title_bold, c.title_italic, &c.separator, title.as_str(), "Unknown")
    }
}

} // verus!
