use vstd::prelude::*;
use crate::color::{
    color_by_name, color_placeholders_rendered, colored_rendering, fg_code, lowercase,
    replace_color_placeholders, CrabFetchColor,
};
use crate::config::Configuration;
use crate::text::{
    append_str, chars_of, copy_str, lemma_find_from_contains, parse_u64, parse_u64_spec, replace_str,
    seq_find, seq_replace, seq_trim, string_of_range, trim, vec_find_from,
};

verus! {

/// An error of one module, with the module's name.
pub struct ModuleError {
    pub module_name: String,
    pub message: String,
}

impl ModuleError {
    /// An error of the module `module` with the given message.
    pub fn new(module: &str, message: String) -> (r: ModuleError)
        ensures
            r.module_name@ == module@,
            r.message@ == message@,
    {
        ModuleError { module_name: copy_str(module), message }
    }

    /// The error as it is shown: `Module NAME failed: MESSAGE`.
    pub fn to_display_string(&self) -> (r: String)
        ensures
            r@ == "Module "@ + self.module_name@ + " failed: "@ + self.message@,
    {
        let mut r = String::new();
        append_str(&mut r, "Module ");
        append_str(&mut r, self.module_name.as_str());
        append_str(&mut r, " failed: ");
        append_str(&mut r, self.message.as_str());
        r
    }
}

/// The title and value that `default_style` gives: a title that is empty or only whitespace
/// is dropped together with the separator; otherwise the title is written in its color and
/// styles, and the value follows the separator.
pub open spec fn default_styled(
    r0: Seq<char>,
    r1: Seq<char>,
    title: Seq<char>,
    color: CrabFetchColor,
    bold: bool,
    italic: bool,
    separator: Seq<char>,
    value: Seq<char>,
) -> bool {
    if seq_trim(title).len() == 0 {
        r0 == Seq::<char>::empty() && r1 == value
    } else {
        colored_rendering(r0, title, fg_code(color), bold, italic) && r1 == separator + value
    }
}

/// Lays out one entry: the colored title, and the separator followed by the value.
pub fn default_style(
    _config: &Configuration,
    title: &str,
    title_color: &CrabFetchColor,
    title_bold: bool,
    title_italic: bool,
    separator: &str,
    value: &str,
) -> (r: (String, String))
    ensures
        default_styled(r.0@, r.1@, title@, *title_color, title_bold, title_italic, separator@, value@),
{
    let mut title_final = String::new();
    let mut value_final = String::new();
    let trimmed = trim(title);
    if !trimmed.as_str().is_empty() {
        title_final = title_color.color_string(title, title_bold, title_italic);
        append_str(&mut value_final, separator);
    }
    append_str(&mut value_final, value);
    (title_final, value_final)
}

/// `o`'s value, or `d` when it has none.
pub open spec fn or_else<T>(o: Option<T>, d: T) -> T {
    match o {
        Some(v) => v,
        None => d,
    }
}

/// The title color of a module: its own, or the global one.
pub open spec fn entry_color(config: Configuration, own: Option<CrabFetchColor>) -> CrabFetchColor {
    or_else(own, config.title_color)
}

/// The separator of a module: its own, or the global one.
pub open spec fn entry_separator(config: Configuration, own: Option<String>) -> Seq<char> {
    match own {
        Some(s) => s@,
        None => config.separator@,
    }
}

/// The styled entry of a module whose options are `own_*`, with the given title and value.
pub open spec fn entry_styled(
    r: (String, String),
    config: Configuration,
    own_color: Option<CrabFetchColor>,
    own_bold: Option<bool>,
    own_italic: Option<bool>,
    own_separator: Option<String>,
    title: Seq<char>,
    value: Seq<char>,
) -> bool {
    default_styled(
        r.0@,
        r.1@,
        title,
        entry_color(config, own_color),
        or_else(own_bold, config.title_bold),
        or_else(own_italic, config.title_italic),
        entry_separator(config, own_separator),
        value,
    )
}

/// Like `entry_styled`, with a value that still holds `{color-...}` placeholders: some
/// rendering of them is what follows the separator.
pub open spec fn module_styled(
    r: (String, String),
    config: Configuration,
    own_color: Option<CrabFetchColor>,
    own_bold: Option<bool>,
    own_italic: Option<bool>,
    own_separator: Option<String>,
    title: Seq<char>,
    value_template: Seq<char>,
) -> bool {
    exists|v: Seq<char>|
        #![trigger color_placeholders_rendered(value_template, v)]
        color_placeholders_rendered(value_template, v) && entry_styled(
            r,
            config,
            own_color,
            own_bold,
            own_italic,
            own_separator,
            title,
            v,
        )
}

/// Lays out one entry with a module's own title options, falling back to the global ones.
pub fn style_entry(
    config: &Configuration,
    own_color: &Option<CrabFetchColor>,
    own_bold: Option<bool>,
    own_italic: Option<bool>,
    own_separator: &Option<String>,
    title: &str,
    value: &str,
) -> (r: (String, String))
    ensures
        entry_styled(r, *config, *own_color, own_bold, own_italic, *own_separator, title@, value@),
{
    let color: CrabFetchColor = match own_color {
        Some(c) => *c,
        None => config.title_color,
    };
    let bold: bool = match own_bold {
        Some(b) => b,
        None => config.title_bold,
    };
    let italic: bool = match own_italic {
        Some(b) => b,
        None => config.title_italic,
    };
    let separator: &str = match own_separator {
        Some(s) => s.as_str(),
        None => config.separator.as_str(),
    };
    default_style(config, title, &color, bold, italic, separator, value)
}

/// Lays out one entry whose value holds `{color-...}` placeholders.
pub fn style_module(
    config: &Configuration,
    own_color: &Option<CrabFetchColor>,
    own_bold: Option<bool>,
    own_italic: Option<bool>,
    own_separator: &Option<String>,
    title: &str,
    value_template: &str,
) -> (r: (String, String))
    ensures
        module_styled(
            r,
            *config,
            *own_color,
            own_bold,
            own_italic,
            *own_separator,
            title@,
            value_template@,
        ),
{
    let value = replace_color_placeholders(value_template);
    let r = style_entry(config, own_color, own_bold, own_italic, own_separator, title, value.as_str());
    assert(color_placeholders_rendered(value_template@, value@));
    r
}

/// A percentage as an entry writes it: rounded to the configured decimal places and written out
/// (`text`), with its whole part (`whole`), which picks its color.
pub struct Percentage {
    pub text: String,
    pub whole: u8,
}

/// A configured percentage threshold `N:color`: the number, when the text before the first `:`
/// is a whole number that fits in 8 bits, and the name of the color after it.
pub open spec fn threshold_entry(t: Seq<char>) -> Option<(u8, Seq<char>)> {
    match seq_find(t, seq![':']) {
        Some(k) => match parse_u64_spec(t.take(k)) {
            Some(n) => if n <= 255 {
                Some((n as u8, t.skip(k + 1)))
            } else {
                None
            },
            None => None,
        },
        None => None,
    }
}

/// The thresholds that can be read, in the order they are configured.
pub open spec fn threshold_entries(ts: Seq<Seq<char>>) -> Seq<(u8, Seq<char>)>
    decreases ts.len(),
{
    if ts.len() == 0 {
        Seq::empty()
    } else {
        match threshold_entry(ts.last()) {
            Some(e) => threshold_entries(ts.drop_last()).push(e),
            None => threshold_entries(ts.drop_last()),
        }
    }
}

/// Threshold `k` is the one that colors a percentage whose whole part is `whole`: the greatest
/// threshold below `whole`, or the least threshold when none is below it; of equal thresholds,
/// the first.
pub open spec fn chosen_threshold(es: Seq<(u8, Seq<char>)>, whole: u8, k: int) -> bool {
    &&& 0 <= k < es.len()
    &&& forall|j: int| 0 <= j < k ==> (#[trigger] es[j]).0 != es[k].0
    &&& if exists|i: int| 0 <= i < es.len() && (#[trigger] es[i]).0 < whole {
        &&& es[k].0 < whole
        &&& forall|i: int| 0 <= i < es.len() && (#[trigger] es[i]).0 < whole ==> es[i].0 <= es[k].0
    } else {
        forall|i: int| 0 <= i < es.len() ==> es[k].0 <= (#[trigger] es[i]).0
    }
}

/// Only one threshold is chosen.
pub proof fn lemma_chosen_threshold_unique(es: Seq<(u8, Seq<char>)>, whole: u8, k1: int, k2: int)
    requires
        chosen_threshold(es, whole, k1),
        chosen_threshold(es, whole, k2),
    ensures
        k1 == k2,
{
    assert(es[k1].0 == es[k2].0) by {
        assert(es[k1].0 <= es[k2].0 || es[k2].0 <= es[k1].0);
    }
    if k1 < k2 {
        assert(es[k1].0 != es[k2].0);
    } else if k2 < k1 {
        assert(es[k2].0 != es[k1].0);
    }
}

/// The color that a threshold names, or `Clear`.
pub open spec fn threshold_color(name: Seq<char>) -> CrabFetchColor {
    match color_by_name(lowercase(name)) {
        Some(c) => c,
        None => CrabFetchColor::Clear,
    }
}

/// `r` is the text of `{percent}`: the percentage and `%`, in the color of the chosen threshold
/// when thresholds are configured.
pub open spec fn percent_rendered(config: Configuration, percentage: Seq<char>, whole: u8, r: Seq<char>) -> bool {
    let es = threshold_entries(config.percentage_color_thresholds.deep_view());
    let p = percentage + "%"@;
    if es.len() == 0 {
        r == p
    } else {
        exists|k: int|
            chosen_threshold(es, whole, k) && colored_rendering(r, p, fg_code(threshold_color(es[k].1)), false, false)
    }
}

/// Reads one configured threshold.
fn threshold_of(t: &str) -> (r: Option<(u8, String)>)
    ensures
        match threshold_entry(t@) {
            Some(e) => r matches Some(x) && x.0 == e.0 && x.1@ == e.1,
            None => r is None,
        },
{
    let v = chars_of(t);
    let colon: Vec<char> = vec![':'];
    assert(colon@ =~= seq![':']);
    match vec_find_from(&v, &colon, 0) {
        Some(k) => {
            proof {
                lemma_find_from_contains(v@, colon@, 0);
            }
            let digits = string_of_range(&v, 0, k);
            assert(digits@ =~= t@.take(k as int));
            match parse_u64(digits.as_str()) {
                Some(n) => {
                    if n <= 255 {
                        let name = string_of_range(&v, k + 1, v.len());
                        assert(name@ =~= t@.skip(k + 1));
                        Some((n as u8, name))
                    } else {
                        None
                    }
                },
                None => None,
            }
        },
        None => None,
    }
}

/// The configured thresholds that can be read.
fn thresholds_of(ts: &Vec<String>) -> (r: Vec<(u8, String)>)
    ensures
        r@.len() == threshold_entries(ts.deep_view()).len(),
        forall|i: int|
            0 <= i < r@.len() ==> (#[trigger] r@[i]).0 == threshold_entries(ts.deep_view())[i].0 && r@[i].1@
                == threshold_entries(ts.deep_view())[i].1,
{
    let ghost tv = ts.deep_view();
    let mut out: Vec<(u8, String)> = Vec::new();
    let mut i: usize = 0;
    assert(tv.take(0) =~= Seq::<Seq<char>>::empty());
    while i < ts.len()
        invariant
            tv == ts.deep_view(),
            0 <= i <= tv.len(),
            out@.len() == threshold_entries(tv.take(i as int)).len(),
            forall|j: int|
                0 <= j < out@.len() ==> (#[trigger] out@[j]).0 == threshold_entries(tv.take(i as int))[j].0
                    && out@[j].1@ == threshold_entries(tv.take(i as int))[j].1,
        decreases tv.len() - i,
    {
        assert(tv.take(i + 1).drop_last() =~= tv.take(i as int));
        assert(tv.take(i + 1).last() == tv[i as int]);
        assert(ts@[i as int]@ == tv[i as int]);
        match threshold_of(ts[i].as_str()) {
            Some(e) => {
                out.push(e);
            },
            None => {},
        }
        i += 1;
    }
    assert(tv.take(tv.len() as int) =~= tv);
    out
}

/// Replaces `{percent}` with the percentage followed by `%`, colored by the configured
/// thresholds: the greatest threshold below the percentage's whole part, or the least one when
/// none is below it, gives the color.
pub fn process_percentage_placeholder(text: &str, percentage: &Percentage, config: &Configuration) -> (r: String)
    ensures
        exists|p: Seq<char>|
            percent_rendered(*config, percentage.text@, percentage.whole, p) && r@ == seq_replace(
                text@,
                "{percent}"@,
                p,
            ),
{
    proof {
        reveal_strlit("{percent}");
    }
    let ghost es = threshold_entries(config.percentage_color_thresholds.deep_view());
    let mut p = copy_str(percentage.text.as_str());
    append_str(&mut p, "%");
    let entries = thresholds_of(&config.percentage_color_thresholds);
    if entries.len() == 0 {
        return replace_str(text, "{percent}", p.as_str());
    }
    let whole = percentage.whole;
    // The first of the least thresholds.
    let mut least: usize = 0;
    let mut i: usize = 1;
    while i < entries.len()
        invariant
            entries@.len() == es.len(),
            forall|j: int| 0 <= j < entries@.len() ==> (#[trigger] entries@[j]).0 == es[j].0 && entries@[j].1@ == es[j].1,
            0 <= least < i <= entries@.len(),
            forall|j: int| 0 <= j < i ==> es[least as int].0 <= (#[trigger] es[j]).0,
            forall|j: int| 0 <= j < least ==> es[least as int].0 < (#[trigger] es[j]).0,
        decreases entries@.len() - i,
    {
        assert(entries@[i as int].0 == es[i as int].0);
        assert(entries@[least as int].0 == es[least as int].0);
        if entries[i].0 < entries[least].0 {
            least = i;
        }
        i += 1;
    }
    let mut cur: usize = least;
    let mut i: usize = 0;
    while i < entries.len()
        invariant
            entries@.len() == es.len(),
            forall|j: int| 0 <= j < entries@.len() ==> (#[trigger] entries@[j]).0 == es[j].0 && entries@[j].1@ == es[j].1,
            0 <= least < es.len(),
            forall|j: int| 0 <= j < es.len() ==> es[least as int].0 <= (#[trigger] es[j]).0,
            forall|j: int| 0 <= j < least ==> es[least as int].0 < (#[trigger] es[j]).0,
            0 <= i <= es.len(),
            0 <= cur < es.len(),
            cur == least || (cur < i && es[cur as int].0 < whole),
            forall|j: int| 0 <= j < i && (#[trigger] es[j]).0 < whole ==> es[j].0 <= es[cur as int].0,
            forall|j: int| 0 <= j < cur ==> (#[trigger] es[j]).0 != es[cur as int].0,
        decreases es.len() - i,
    {
        assert(entries@[i as int].0 == es[i as int].0);
        assert(entries@[cur as int].0 == es[cur as int].0);
        if whole > entries[i].0 && entries[i].0 > entries[cur].0 {
            proof {
                assert forall|j: int| 0 <= j < i implies (#[trigger] es[j]).0 != es[i as int].0 by {
                    if es[j].0 < whole {
                        assert(es[j].0 <= es[cur as int].0);
                    }
                }
            }
            cur = i;
        }
        i += 1;
    }
    proof {
        if exists|i: int| 0 <= i < es.len() && (#[trigger] es[i]).0 < whole {
            let w = choose|i: int| 0 <= i < es.len() && (#[trigger] es[i]).0 < whole;
            assert(es[least as int].0 <= es[w].0);
        } else {
            assert(cur == least);
        }
        assert(chosen_threshold(es, whole, cur as int));
    }
    let color = match CrabFetchColor::from_str(entries[cur].1.as_str()) {
        Ok(c) => c,
        Err(_) => CrabFetchColor::Clear,
    };
    assert(color == threshold_color(es[cur as int].1));
    let colored = color.color_string(p.as_str(), false, false);
    proof {
        reveal_strlit("%");
        assert(percent_rendered(*config, percentage.text@, percentage.whole, colored@));
    }
    replace_str(text, "{percent}", colored.as_str())
}

} // verus!
