use vstd::prelude::*;
use crate::color::CrabFetchColor;
use crate::config::Configuration;
use crate::module::{
    entry_styled, module_styled, percent_rendered, process_percentage_placeholder, style_entry,
    style_module, Percentage,
};
use crate::text::{replace_str, seq_replace};

verus! {

/// The options of the swap entry.
pub struct SwapConfiguration {
    pub title: String,
    pub title_color: Option<CrabFetchColor>,
    pub title_bold: Option<bool>,
    pub title_italic: Option<bool>,
    pub separator: Option<String>,
    pub progress_left_border: Option<String>,
    pub progress_right_border: Option<String>,
    pub progress_progress: Option<String>,
    pub progress_empty: Option<String>,
    pub progress_target_length: Option<u8>,
    pub decimal_places: Option<u32>,
    pub use_ibis: Option<bool>,
    pub format: String,
}

/// The swap space that the system reports (`totalswap` and `freeswap` units of `mem_unit`
/// bytes), as (used, total) kilobytes, thousands of bytes rounded down.
pub fn swap_kb(totalswap: u64, freeswap: u64, mem_unit: u64) -> (r: (u64, u64))
    requires
        totalswap * mem_unit <= u64::MAX,
        freeswap * mem_unit <= u64::MAX,
        (freeswap * mem_unit) / 1000 <= (totalswap * mem_unit) / 1000,
    ensures
        r.1 == (totalswap * mem_unit) / 1000,
        r.0 == (totalswap * mem_unit) / 1000 - (freeswap * mem_unit) / 1000,
{
    let total_kb = (totalswap * mem_unit) / 1000;
    let used_kb = total_kb - ((freeswap * mem_unit) / 1000);
    (used_kb, total_kb)
}

/// Swap space in use, as the entry writes it: the used and total sizes (already written with
/// their units) and the share used.
pub struct SwapInfo {
    pub used: String,
    pub total: String,
    pub percentage: Percentage,
}

impl SwapInfo {
    /// `text` with `{percent}` replaced by `percent`, then `{used}`, `{total}` and `{bar}` filled
    /// in (the bar is left empty).
    pub open spec fn filled(&self, text: Seq<char>, percent: Seq<char>) -> Seq<char> {
        seq_replace(
            seq_replace(seq_replace(seq_replace(text, "{percent}"@, percent), "{used}"@, self.used@), "{total}"@, self.total@),
            "{bar}"@,
            Seq::<char>::empty(),
        )
    }

    /// Fills in the placeholders of `text`.
    pub fn replace_placeholders(&self, text: &str, config: &Configuration) -> (r: String)
        ensures
            exists|p: Seq<char>|
                percent_rendered(*config, self.percentage.text@, self.percentage.whole, p) && r@ == self.filled(
                    text@,
                    p,
                ),
    {
        proof {
            reveal_strlit("{used}");
            reveal_strlit("{total}");
            reveal_strlit("{bar}");
            reveal_strlit("");
        }
        let t0 = process_percentage_placeholder(text, &self.percentage, config);
        let ghost p = choose|p: Seq<char>|
            percent_rendered(*config, self.percentage.text@, self.percentage.whole, p) && t0@ == seq_replace(
                text@,
                "{percent}"@,
                p,
            );
        let t1 = replace_str(t0.as_str(), "{used}", self.used.as_str());
        let t2 = replace_str(t1.as_str(), "{total}", self.total.as_str());
        let r = replace_str(t2.as_str(), "{bar}", "");
        assert(""@ =~= Seq::<char>::empty());
        assert(r@ == self.filled(text@, p));
        r
    }

    /// The entry: the title and the format with their placeholders filled in.
    pub fn style(&self, config: &Configuration) -> (r: (String, String))
        ensures
            exists|pt: Seq<char>, pv: Seq<char>|
                percent_rendered(*config, self.percentage.text@, self.percentage.whole, pt) && percent_rendered(
                    *config,
                    self.percentage.text@,
                    self.percentage.whole,
                    pv,
                ) && module_styled(
                    r,
                    *config,
                    config.swap.title_color,
                    config.swap.title_bold,
                    config.swap.title_italic,
                    config.swap.separator,
                    self.filled(config.swap.title@, pt),
                    self.filled(config.swap.format@, pv),
                ),
    {
        let title = self.replace_placeholders(config.swap.title.as_str(), config);
        let value = self.replace_placeholders(config.swap.format.as_str(), config);
        let c = &config.swap;
        style_module(config, &c.title_color, c.title_bold, c.title_italic, &c.separator, title.as_str(), value.as_str())
    }

    /// The entry when swap could not be read: the swap entry's options, with the uptime entry's
    /// title, where `{used}`, `{total}` and `{bar}` read `Unknown`, and the value `Unknown`.
    pub fn unknown_output(config: &Configuration) -> (r: (String, String))
        ensures
            entry_styled(
                r,
                *config,
                config.swap.title_color,
                config.swap.title_bold,
                config.swap.title_italic,
                config.swap.separator,
                seq_replace(
                    seq_replace(seq_replace(config.uptime.title@, "{used}"@, "Unknown"@), "{total}"@, "Unknown"@),
                    "{bar}"@,
                    "Unknown"@,
                ),
                "Unknown"@,
            ),
    {
        proof {
            reveal_strlit("{used}");
            reveal_strlit("{total}");
            reveal_strlit("{bar}");
        }
        let c = &config.swap;
        let t0 = replace_str(config.uptime.title.as_str(), "{used}", "Unknown");
        let t1 = replace_str(t0.as_str(), "{total}", "Unknown");
        let title = replace_str(t1.as_str(), "{bar}", "Unknown");
        style_entry(config, &c.title_color, c.title_bold, c.title_italic, &c.separator, title.as_str(), "Unknown")
    }
}

} // verus!
