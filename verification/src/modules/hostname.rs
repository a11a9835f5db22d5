use vstd::prelude::*;
use crate::color::CrabFetchColor;
use crate::config::Configuration;
use crate::module::{entry_styled, module_styled, style_entry, style_module, ModuleError};
use crate::text::{append_str, copy_str, replace_str, seq_contains, seq_replace, str_contains};
use crate::util::{bit_if, flag_set, is_flag_set_u32, lemma_flags2, lemma_flags3};


verus! {

/// The user and the machine's host name.
pub struct HostnameInfo {
    pub username: String,
    pub hostname: String,
}

/// The options of the host name entry.
pub struct HostnameConfiguration {
    pub title: String,
    pub title_color: Option<CrabFetchColor>,
    pub title_bold: Option<bool>,
    pub title_italic: Option<bool>,
    pub separator: Option<String>,
    pub format: String,
}

/// Set when the format shows the host name.
pub const HOSTNAME_INFOFLAG_HOSTNAME: u32 = 1;
/// Set when the format shows the user name.
pub const HOSTNAME_INFOFLAG_USERNAME: u32 = 2;

impl HostnameInfo {
    /// Text with its placeholders filled in.
    pub open spec fn filled(&self, text: Seq<char>) -> Seq<char> {
        seq_replace(seq_replace(text, "{username}"@, self.username@), "{hostname}"@, self.hostname@)
    }

    /// Everything unknown.
    pub fn new() -> (r: HostnameInfo)
        ensures
            r.username@ == "Unknown"@,
            r.hostname@ == "Unknown"@,
    {
        HostnameInfo { username: copy_str("Unknown"), hostname: copy_str("Unknown") }
    }

    /// Fills the placeholders of `text`.
    pub fn replace_placeholders(&self, text: &str, _config: &Configuration) -> (r: String)
        ensures
            r@ == self.filled(text@),
    {
        proof {
            reveal_strlit("{username}");
            reveal_strlit("{hostname}");
        }
        let t0 = replace_str(text, "{username}", self.username.as_str());
        let t1 = replace_str(t0.as_str(), "{hostname}", self.hostname.as_str());
        t1
    }

    /// The details that `format` asks for.
    pub fn gen_info_flags(format: &str) -> (r: u32)
        ensures
            r == bit_if(seq_contains(format@, "{hostname}"@), HOSTNAME_INFOFLAG_HOSTNAME) + bit_if(seq_contains(format@, "{username}"@), HOSTNAME_INFOFLAG_USERNAME),
            flag_set(r, HOSTNAME_INFOFLAG_HOSTNAME) == (seq_contains(format@, "{hostname}"@)),
            flag_set(r, HOSTNAME_INFOFLAG_USERNAME) == (seq_contains(format@, "{username}"@)),
    {
        let has_hostname = str_contains(format, "{hostname}");
        let has_username = str_contains(format, "{username}");
        let mut info_flags: u32 = 0;
        if has_hostname {
            info_flags = info_flags + HOSTNAME_INFOFLAG_HOSTNAME;
        }
        if has_username {
            info_flags = info_flags + HOSTNAME_INFOFLAG_USERNAME;
        }
        proof {
            lemma_flags2(info_flags, seq_contains(format@, "{hostname}"@), seq_contains(format@, "{username}"@));
        }
        info_flags
    }

    /// The entry: title and format with the placeholders filled in.
    pub fn style(&self, config: &Configuration) -> (r: (String, String))
        ensures
            module_styled(
                r,
                *config,
                config.hostname.title_color,
                config.hostname.title_bold,
                config.hostname.title_italic,
                config.hostname.separator,
                self.filled(config.hostname.title@),
                self.filled(config.hostname.format@),
            ),
    {
        let title = self.replace_placeholders(config.hostname.title.as_str(), config);
        let value = self.replace_placeholders(config.hostname.format.as_str(), config);
        style_module(
            config,
            &config.hostname.title_color,
            config.hostname.title_bold,
            config.hostname.title_italic,
            &config.hostname.separator,
            title.as_str(),
            value.as_str(),
        )
    }

    /// The entry when nothing could be found: `Unknown` in the title's placeholders and as the value.
    pub fn unknown_output(config: &Configuration) -> (r: (String, String))
        ensures
            entry_styled(
                r,
                *config,
                config.hostname.title_color,
                config.hostname.title_bold,
                config.hostname.title_italic,
                config.hostname.separator,
                seq_replace(seq_replace(config.hostname.title@, "{username}"@, "Unknown"@), "{hostname}"@, "Unknown"@),
                "Unknown"@,
            ),
    {
        proof {
            reveal_strlit("{username}");
            reveal_strlit("{hostname}");
        }
        let u0 = replace_str(config.hostname.title.as_str(), "{username}", "Unknown");
        let u1 = replace_str(u0.as_str(), "{hostname}", "Unknown");
        style_entry(
            config,
            &config.hostname.title_color,
            config.hostname.title_bold,
            config.hostname.title_italic,
            &config.hostname.separator,
            u1.as_str(),
            "Unknown",
        )
    }
}


/// The user and host names as the format asks for them: the user from `$USER` (`user_env`)
/// or else from the password database (`passwd_name`), the host name from `uname`
/// (`nodename`).
pub fn get_hostname(
    config: &Configuration,
    user_env: Option<String>,
    passwd_name: String,
    nodename: String,
) -> (r: Result<HostnameInfo, ModuleError>)
    ensures
        r matches Ok(h) && h.username@ == (if seq_contains(config.hostname.format@, "{username}"@) {
            match user_env {
                Some(u) => u@,
                None => passwd_name@,
            }
        } else {
            "Unknown"@
        }) && h.hostname@ == (if seq_contains(config.hostname.format@, "{hostname}"@) {
            nodename@
        } else {
            "Unknown"@
        }),
{
    let mut hostname = HostnameInfo::new();
    let info_flags = HostnameInfo::gen_info_flags(config.hostname.format.as_str());
    if is_flag_set_u32(info_flags, HOSTNAME_INFOFLAG_USERNAME) {
        hostname.username = match user_env {
            Some(u) => u,
            None => passwd_name,
        };
    }
    if is_flag_set_u32(info_flags, HOSTNAME_INFOFLAG_HOSTNAME) {
        hostname.hostname = nodename;
    }
    Ok(hostname)
}

} // verus!
