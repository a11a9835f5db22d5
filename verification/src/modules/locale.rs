use vstd::prelude::*;
use crate::color::CrabFetchColor;
use crate::config::Configuration;
use crate::module::{entry_styled, module_styled, style_entry, style_module, ModuleError};
use crate::text::{append_str, copy_str, replace_str, seq_contains, seq_replace, str_contains};
use crate::util::{bit_if, flag_set, is_flag_set_u32, lemma_flags2, lemma_flags3};
use crate::text::{seq_split, split_char, lemma_split_nonempty};

verus! {

/// The locale's language and encoding.
pub struct LocaleInfo {
    pub language: String,
    pub encoding: String,
}

/// The options of the locale entry.
pub struct LocaleConfiguration {
    pub title: String,
    pub title_color: Option<CrabFetchColor>,
    pub title_bold: Option<bool>,
    pub title_italic: Option<bool>,
    pub separator: Option<String>,
    pub format: String,
}

impl LocaleInfo {
    /// Text with its placeholders filled in.
    pub open spec fn filled(&self, text: Seq<char>) -> Seq<char> {
        seq_replace(seq_replace(text, "{language}"@, self.language@), "{encoding}"@, self.encoding@)
    }

    /// Everything unknown.
    pub fn new() -> (r: LocaleInfo)
        ensures
            r.language@ == "Unknown"@,
            r.encoding@ == "Unknown"@,
    {
        LocaleInfo { language: copy_str("Unknown"), encoding: copy_str("Unknown") }
    }

    /// Fills the placeholders of `text`.
    pub fn replace_placeholders(&self, text: &str, _config: &Configuration) -> (r: String)
        ensures
            r@ == self.filled(text@),
    {
        proof {
            reveal_strlit("{language}");
            reveal_strlit("{encoding}");
        }
        let t0 = replace_str(text, "{language}", self.language.as_str());
        let t1 = replace_str(t0.as_str(), "{encoding}", self.encoding.as_str());
        t1
    }

    /// The entry: title and format with the placeholders filled in.
    pub fn style(&self, config: &Configuration) -> (r: (String, String))
        ensures
            module_styled(
                r,
                *config,
                config.locale.title_color,
                config.locale.title_bold,
                config.locale.title_italic,
                config.locale.separator,
                self.filled(config.locale.title@),
                self.filled(config.locale.format@),
            ),
    {
        let title = self.replace_placeholders(config.locale.title.as_str(), config);
        let value = self.replace_placeholders(config.locale.format.as_str(), config);
        style_module(
            config,
            &config.locale.title_color,
            config.locale.title_bold,
            config.locale.title_italic,
            &config.locale.separator,
            title.as_str(),
            value.as_str(),
        )
    }

    /// The entry when nothing could be found: `Unknown` in the title's placeholders and as the value.
    pub fn unknown_output(config: &Configuration) -> (r: (String, String))
        ensures
            entry_styled(
                r,
                *config,
                config.locale.title_color,
                config.locale.title_bold,
                config.locale.title_italic,
                config.locale.separator,
                seq_replace(seq_replace(config.locale.title@, "{language}"@, "Unknown"@), "{encoding}"@, "Unknown"@),
                "Unknown"@,
            ),
    {
        proof {
            reveal_strlit("{language}");
            reveal_strlit("{encoding}");
        }
        let u0 = replace_str(config.locale.title.as_str(), "{language}", "Unknown");
        let u1 = replace_str(u0.as_str(), "{encoding}", "Unknown");
        style_entry(
            config,
            &config.locale.title_color,
            config.locale.title_bold,
            config.locale.title_italic,
            &config.locale.separator,
            u1.as_str(),
            "Unknown",
        )
    }
}


/// The locale from `$LANG` (`lang`, or the error met reading it): the language before the
/// first `.`, and the encoding after it (`Unknown` without one).
pub fn get_locale(lang: Result<String, String>) -> (r: Result<LocaleInfo, ModuleError>)
    ensures
        match lang {
            Err(e) => r matches Err(x) && x.module_name@ == "Locale"@ && x.message@
                == "Could not parse $LANG env variable: "@ + e@,
            Ok(raw) => r matches Ok(l) && l.language@ == seq_split(raw@, '.')[0] && l.encoding@
                == (if seq_split(raw@, '.').len() > 1 {
                seq_split(raw@, '.')[1]
            } else {
                "Unknown"@
            }),
        },
{
    let mut locale = LocaleInfo::new();
    match lang {
        Err(e) => {
            let mut m = copy_str("Could not parse $LANG env variable: ");
            append_str(&mut m, e.as_str());
            Err(ModuleError::new("Locale", m))
        },
        Ok(raw) => {
            let pieces = split_char(raw.as_str(), '.');
            proof {
                lemma_split_nonempty(raw@, '.');
            }
            assert(pieces@[0]@ == pieces.deep_view()[0]);
            locale.language = copy_str(pieces[0].as_str());
            if pieces.len() > 1 {
                assert(pieces@[1]@ == pieces.deep_view()[1]);
                locale.encoding = copy_str(pieces[1].as_str());
            }
            Ok(locale)
        },
    }
}

} // verus!
