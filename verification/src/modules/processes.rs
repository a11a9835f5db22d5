use vstd::prelude::*;
use crate::color::CrabFetchColor;
use crate::config::Configuration;
use crate::module::{entry_styled, module_styled, style_entry, style_module, ModuleError};
use crate::text::{append_str, copy_str, nat_to_dec, parse_u64, parse_u64_spec, replace_str, seq_replace, u64_to_string};

verus! {

/// How many processes are running.
pub struct ProcessesInfo {
    pub count: u32,
}

/// The options of the processes entry.
pub struct ProcessesConfiguration {
    pub title: String,
    pub title_color: Option<CrabFetchColor>,
    pub title_bold: Option<bool>,
    pub title_italic: Option<bool>,
    pub separator: Option<String>,
    pub format: Option<String>,
}

/// The format of the entry: the configured one, or `{count}`.
pub open spec fn processes_format(config: Configuration) -> Seq<char> {
    match config.processes.format {
        Some(f) => f@,
        None => "{count}"@,
    }
}

impl ProcessesInfo {
    /// Text with `{count}` filled in.
    pub open spec fn filled(&self, text: Seq<char>) -> Seq<char> {
        seq_replace(text, "{count}"@, nat_to_dec(self.count as nat))
    }

    /// No process counted.
    pub fn new() -> (r: ProcessesInfo)
        ensures
            r.count == 0,
    {
        ProcessesInfo { count: 0 }
    }

    /// Fills the `{count}` placeholder of `text`.
    pub fn replace_placeholders(&self, text: &str, _config: &Configuration) -> (r: String)
        ensures
            r@ == self.filled(text@),
    {
        proof {
            reveal_strlit("{count}");
        }
        let n = u64_to_string(self.count as u64);
        replace_str(text, "{count}", n.as_str())
    }

    /// The entry: the title, and the format with the count filled in.
    pub fn style(&self, config: &Configuration) -> (r: (String, String))
        ensures
            module_styled(
                r,
                *config,
                config.processes.title_color,
                config.processes.title_bold,
                config.processes.title_italic,
                config.processes.separator,
                config.processes.title@,
                self.filled(processes_format(*config)),
            ),
    {
        let format: String = match &config.processes.format {
            Some(f) => copy_str(f.as_str()),
            None => copy_str("{count}"),
        };
        let value = self.replace_placeholders(format.as_str(), config);
        style_module(
            config,
            &config.processes.title_color,
            config.processes.title_bold,
            config.processes.title_italic,
            &config.processes.separator,
            config.processes.title.as_str(),
            value.as_str(),
        )
    }

    /// The entry when nothing could be found: the title, and `Unknown`.
    pub fn unknown_output(config: &Configuration) -> (r: (String, String))
        ensures
            entry_styled(
                r,
                *config,
                config.processes.title_color,
                config.processes.title_bold,
                config.processes.title_italic,
                config.processes.separator,
                config.processes.title@,
                "Unknown"@,
            ),
    {
        style_entry(
            config,
            &config.processes.title_color,
            config.processes.title_bold,
            config.processes.title_italic,
            &config.processes.separator,
            config.processes.title.as_str(),
            "Unknown",
        )
    }
}

/// How many of the names are process ids (unsigned numbers).
pub open spec fn count_numeric(names: Seq<Seq<char>>) -> nat
    decreases names.len(),
{
    if names.len() == 0 {
        0
    } else {
        count_numeric(names.drop_last()) + (if parse_u64_spec(names.last()) is Some { 1nat } else { 0nat })
    }
}

/// The count is never more than the names.
proof fn lemma_count_numeric_bound(names: Seq<Seq<char>>)
    ensures
        count_numeric(names) <= names.len(),
    decreases names.len(),
{
    if names.len() > 0 {
        lemma_count_numeric_bound(names.drop_last());
    }
}

/// The number of running processes, from the names of the entries of `/proc` (or the error met
/// listing it): those that are numbers.
pub fn get_process_count(entries: Result<Vec<String>, String>) -> (r: Result<ProcessesInfo, ModuleError>)
    requires
        entries matches Ok(names) ==> names@.len() <= u32::MAX,
    ensures
        match entries {
            Err(e) => r matches Err(x) && x.module_name@ == "Processes"@ && x.message@ == "Failed to read /proc: "@ + e@,
            Ok(names) => r matches Ok(p) && p.count == count_numeric(names.deep_view()),
        },
{
    match entries {
        Err(e) => {
            let mut m = copy_str("Failed to read /proc: ");
            append_str(&mut m, e.as_str());
            Err(ModuleError::new("Processes", m))
        },
        Ok(names) => {
            let ghost nv = names.deep_view();
            let mut info = ProcessesInfo::new();
            let mut i: usize = 0;
            assert(nv.take(0) =~= Seq::<Seq<char>>::empty());
            while i < names.len()
                invariant
                    nv == names.deep_view(),
                    nv.len() <= u32::MAX,
                    0 <= i <= nv.len(),
                    info.count == count_numeric(nv.take(i as int)),
                decreases nv.len() - i,
            {
                assert(nv.take(i + 1).drop_last() =~= nv.take(i as int));
                assert(nv.take(i + 1).last() == nv[i as int]);
                assert(names@[i as int]@ == nv[i as int]);
                proof {
                    lemma_count_numeric_bound(nv.take(i as int));
                }
                if parse_u64(names[i].as_str()).is_some() {
                    info.count = info.count + 1;
                }
                i += 1;
            }
            assert(nv.take(nv.len() as int) =~= nv);
            Ok(info)
        },
    }
}

} // verus!
