use vstd::prelude::*;
use crate::color::CrabFetchColor;
use crate::config::Configuration;
use crate::module::{entry_styled, module_styled, style_entry, style_module, ModuleError};
use crate::text::{append_str, copy_str, replace_str, seq_contains, seq_replace, seq_trim, str_contains, str_eq, trim};
use crate::util::{bit_if, flag_set, is_flag_set_u32, lemma_flags2};

verus! {

/// The machine: its product name and its chassis type.
pub struct HostInfo {
    pub host: String,
    pub chassis: String,
}

/// The options of the host entry.
pub struct HostConfiguration {
    pub title: String,
    pub format: String,
    pub title_color: Option<CrabFetchColor>,
    pub title_bold: Option<bool>,
    pub title_italic: Option<bool>,
    pub separator: Option<String>,
    pub newline_chassis: bool,
    pub chassis_title: String,
    pub chassis_format: String,
}

/// Set when the format shows the host.
pub const HOST_INFOFLAG_HOST: u32 = 1;
/// Set when the format shows the chassis.
pub const HOST_INFOFLAG_CHASSIS: u32 = 2;

/// The name of an SMBIOS chassis type code, as written in `chassis_type`.
pub open spec fn chassis_name(code: Seq<char>) -> Seq<char> {
    if code == "1"@ {
        "Other"@
    } else if code == "3"@ {
        "Desktop"@
    } else if code == "4"@ {
        "Low Profile Desktop"@
    } else if code == "5"@ {
        "Pizza Box"@
    } else if code == "6"@ {
        "Mini Tower"@
    } else if code == "7"@ {
        "Tower"@
    } else if code == "8"@ {
        "Portable"@
    } else if code == "9"@ {
        "Laptop"@
    } else if code == "10"@ {
        "Notebook"@
    } else if code == "11"@ {
        "Hand Held"@
    } else if code == "12"@ {
        "Docking Station"@
    } else if code == "13"@ {
        "All In One"@
    } else if code == "14"@ {
        "Sub Notebook"@
    } else if code == "15"@ {
        "Space-saving"@
    } else if code == "16"@ {
        "Lunch Box"@
    } else if code == "17"@ {
        "Main Server Chassis"@
    } else if code == "18"@ {
        "Expansion Chassis"@
    } else if code == "19"@ {
        "Sub Chassis"@
    } else if code == "20"@ {
        "Bus Expansion Chassis"@
    } else if code == "21"@ {
        "Peripheral Chassis"@
    } else if code == "22"@ {
        "RAID Chassis"@
    } else if code == "23"@ {
        "Rack Mount Chassis"@
    } else if code == "24"@ {
        "Sealed-case PC"@
    } else if code == "25"@ {
        "Multi-system"@
    } else if code == "26"@ {
        "CompactPCI"@
    } else if code == "27"@ {
        "AdvancedTCA"@
    } else if code == "28"@ {
        "Blade"@
    } else if code == "29"@ {
        "Blade Enclosing"@
    } else if code == "30"@ {
        "Tablet"@
    } else if code == "31"@ {
        "Convertible"@
    } else if code == "32"@ {
        "Detachable"@
    } else if code == "33"@ {
        "IoT Gateway"@
    } else if code == "34"@ {
        "Embedded PC"@
    } else if code == "35"@ {
        "Mini PC"@
    } else if code == "36"@ {
        "Stick PC"@
    } else {
        "Unknown"@
    }
}

/// The name of the chassis type `code` (`Unknown` for codes without one).
pub fn chassis_type_name(code: &str) -> (r: String)
    ensures
        r@ == chassis_name(code@),
{
    if str_eq(code, "1") {
        copy_str("Other")
    } else if str_eq(code, "3") {
        copy_str("Desktop")
    } else if str_eq(code, "4") {
        copy_str("Low Profile Desktop")
    } else if str_eq(code, "5") {
        copy_str("Pizza Box")
    } else if str_eq(code, "6") {
        copy_str("Mini Tower")
    } else if str_eq(code, "7") {
        copy_str("Tower")
    } else if str_eq(code, "8") {
        copy_str("Portable")
    } else if str_eq(code, "9") {
        copy_str("Laptop")
    } else if str_eq(code, "10") {
        copy_str("Notebook")
    } else if str_eq(code, "11") {
        copy_str("Hand Held")
    } else if str_eq(code, "12") {
        copy_str("Docking Station")
    } else if str_eq(code, "13") {
        copy_str("All In One")
    } else if str_eq(code, "14") {
        copy_str("Sub Notebook")
    } else if str_eq(code, "15") {
        copy_str("Space-saving")
    } else if str_eq(code, "16") {
        copy_str("Lunch Box")
    } else if str_eq(code, "17") {
        copy_str("Main Server Chassis")
    } else if str_eq(code, "18") {
        copy_str("Expansion Chassis")
    } else if str_eq(code, "19") {
        copy_str("Sub Chassis")
    } else if str_eq(code, "20") {
        copy_str("Bus Expansion Chassis")
    } else if str_eq(code, "21") {
        copy_str("Peripheral Chassis")
    } else if str_eq(code, "22") {
        copy_str("RAID Chassis")
    } else if str_eq(code, "23") {
        copy_str("Rack Mount Chassis")
    } else if str_eq(code, "24") {
        copy_str("Sealed-case PC")
    } else if str_eq(code, "25") {
        copy_str("Multi-system")
    } else if str_eq(code, "26") {
        copy_str("CompactPCI")
    } else if str_eq(code, "27") {
        copy_str("AdvancedTCA")
    } else if str_eq(code, "28") {
        copy_str("Blade")
    } else if str_eq(code, "29") {
        copy_str("Blade Enclosing")
    } else if str_eq(code, "30") {
        copy_str("Tablet")
    } else if str_eq(code, "31") {
        copy_str("Convertible")
    } else if str_eq(code, "32") {
        copy_str("Detachable")
    } else if str_eq(code, "33") {
        copy_str("IoT Gateway")
    } else if str_eq(code, "34") {
        copy_str("Embedded PC")
    } else if str_eq(code, "35") {
        copy_str("Mini PC")
    } else if str_eq(code, "36") {
        copy_str("Stick PC")
    } else {
        copy_str("Unknown")
    }
}

impl HostInfo {
    /// Text with `{host}` and `{chassis}` filled in.
    pub open spec fn filled(&self, text: Seq<char>) -> Seq<char> {
        seq_replace(seq_replace(text, "{host}"@, self.host@), "{chassis}"@, self.chassis@)
    }

    /// Everything unknown.
    pub fn new() -> (r: HostInfo)
        ensures
            r.host@ == "Unknown"@,
            r.chassis@ == "Unknown"@,
    {
        HostInfo { host: copy_str("Unknown"), chassis: copy_str("Unknown") }
    }

    /// Fills the `{host}` and `{chassis}` placeholders of `text`.
    pub fn replace_placeholders(&self, text: &str, _config: &Configuration) -> (r: String)
        ensures
            r@ == self.filled(text@),
    {
        proof {
            reveal_strlit("{host}");
            reveal_strlit("{chassis}");
        }
        let t = replace_str(text, "{host}", self.host.as_str());
        replace_str(t.as_str(), "{chassis}", self.chassis.as_str())
    }

    /// The details that `format` asks for.
    pub fn gen_info_flags(format: &str) -> (r: u32)
        ensures
            r == bit_if(seq_contains(format@, "{host}"@), HOST_INFOFLAG_HOST) + bit_if(
                seq_contains(format@, "{chassis}"@),
                HOST_INFOFLAG_CHASSIS,
            ),
            flag_set(r, HOST_INFOFLAG_HOST) == seq_contains(format@, "{host}"@),
            flag_set(r, HOST_INFOFLAG_CHASSIS) == seq_contains(format@, "{chassis}"@),
    {
        let mut info_flags: u32 = 0;
        if str_contains(format, "{host}") {
            info_flags = info_flags + HOST_INFOFLAG_HOST;
        }
        if str_contains(format, "{chassis}") {
            info_flags = info_flags + HOST_INFOFLAG_CHASSIS;
        }
        proof {
            lemma_flags2(info_flags, seq_contains(format@, "{host}"@), seq_contains(format@, "{chassis}"@));
        }
        info_flags
    }

    /// The entry: title and format with the placeholders filled in.
    pub fn style(&self, config: &Configuration) -> (r: (String, String))
        ensures
            module_styled(
                r,
                *config,
                config.host.title_color,
                config.host.title_bold,
                config.host.title_italic,
                config.host.separator,
                self.filled(config.host.title@),
                self.filled(config.host.format@),
            ),
    {
        let title = self.replace_placeholders(config.host.title.as_str(), config);
        let value = self.replace_placeholders(config.host.format.as_str(), config);
        style_module(
            config,
            &config.host.title_color,
            config.host.title_bold,
            config.host.title_italic,
            &config.host.separator,
            title.as_str(),
            value.as_str(),
        )
    }

    /// The entry when nothing could be found: `Unknown` everywhere.
    pub fn unknown_output(config: &Configuration) -> (r: (String, String))
        ensures
            entry_styled(
                r,
                *config,
                config.host.title_color,
                config.host.title_bold,
                config.host.title_italic,
                config.host.separator,
                seq_replace(
                    seq_replace(config.host.title@, "{host}"@, "Unknown"@),
                    "{chassis}"@,
                    "Unknown"@,
                ),
                "Unknown"@,
            ),
    {
        proof {
            reveal_strlit("{host}");
            reveal_strlit("{chassis}");
        }
        let t = replace_str(config.host.title.as_str(), "{host}", "Unknown");
        let title = replace_str(t.as_str(), "{chassis}", "Unknown");
        style_entry(
            config,
            &config.host.title_color,
            config.host.title_bold,
            config.host.title_italic,
            &config.host.separator,
            title.as_str(),
            "Unknown",
        )
    }

    /// The chassis entry shown on its own line: the chassis title, and the chassis format with
    /// `{chassis}` filled in.
    pub fn style_chassis(&self, config: &Configuration) -> (r: (String, String))
        ensures
            module_styled(
                r,
                *config,
                config.host.title_color,
                config.host.title_bold,
                config.host.title_italic,
                config.host.separator,
                config.host.chassis_title@,
                seq_replace(config.host.chassis_format@, "{chassis}"@, self.chassis@),
            ),
    {
        proof {
            reveal_strlit("{chassis}");
        }
        let value = replace_str(config.host.chassis_format.as_str(), "{chassis}", self.chassis.as_str());
        style_module(
            config,
            &config.host.title_color,
            config.host.title_bold,
            config.host.title_italic,
            &config.host.separator,
            config.host.chassis_title.as_str(),
            value.as_str(),
        )
    }
}

/// The host as the format asks for it. `in_wsl` says whether the system runs under Windows'
/// WSL; `host_file` is the first of the DMI product name, DMI board name and device tree model
/// files that exists, with what reading it gave; `chassis_file` is what reading the DMI chassis
/// type gave, when that file exists.
pub fn get_host(
    config: &Configuration,
    in_wsl: bool,
    host_file: Option<(String, Result<String, String>)>,
    chassis_file: Option<Result<String, String>>,
) -> (r: Result<HostInfo, ModuleError>)
    ensures
        ({
            let format = if config.host.newline_chassis {
                config.host.format@ + config.host.chassis_format@
            } else {
                config.host.format@
            };
            let wants_host = seq_contains(format, "{host}"@);
            let wants_chassis = seq_contains(format, "{chassis}"@);
            let host_err = !in_wsl && wants_host && (host_file is None || host_file->Some_0.1 is Err);
            let chassis_err = !in_wsl && !host_err && wants_chassis && chassis_file matches Some(Err(_));
            match r {
                Err(e) => {
                    &&& e.module_name@ == "Host"@
                    &&& host_err || chassis_err
                    &&& host_err && host_file is None ==> e.message@
                        == "Can't find an appropriate path for host."@
                    &&& host_err && host_file is Some ==> e.message@ == "Can't read from "@
                        + host_file->Some_0.0@ + " - "@ + host_file->Some_0.1->Err_0@
                    &&& chassis_err ==> e.message@
                        == "Can't read from /sys/devices/virtual/dmi/id/chassis_type - "@
                        + chassis_file->Some_0->Err_0@
                },
                Ok(h) => {
                    &&& !host_err && !chassis_err
                    &&& in_wsl ==> h.host@ == "Windows Subsystem for Linux"@ && h.chassis@ == "N/A"@
                    &&& !in_wsl ==> h.host@ == (if wants_host {
                        seq_trim(host_file->Some_0.1->Ok_0@)
                    } else {
                        "Unknown"@
                    })
                    &&& !in_wsl ==> h.chassis@ == (if wants_chassis && chassis_file is Some {
                        chassis_name(seq_trim(chassis_file->Some_0->Ok_0@))
                    } else {
                        "Unknown"@
                    })
                },
            }
        }),
{
    let mut host = HostInfo::new();
    let mut format = copy_str(config.host.format.as_str());
    if config.host.newline_chassis {
        append_str(&mut format, config.host.chassis_format.as_str());
    }
    let info_flags = HostInfo::gen_info_flags(format.as_str());
    if in_wsl {
        host.host = copy_str("Windows Subsystem for Linux");
        host.chassis = copy_str("N/A");
        return Ok(host);
    }
    if is_flag_set_u32(info_flags, HOST_INFOFLAG_HOST) {
        match host_file {
            None => {
                return Err(ModuleError::new("Host", copy_str("Can't find an appropriate path for host.")));
            },
            Some((path, contents)) => match contents {
                Ok(c) => {
                    host.host = trim(c.as_str());
                },
                Err(e) => {
                    let mut message = copy_str("Can't read from ");
                    append_str(&mut message, path.as_str());
                    append_str(&mut message, " - ");
                    append_str(&mut message, e.as_str());
                    return Err(ModuleError::new("Host", message));
                },
            },
        }
    }
    if is_flag_set_u32(info_flags, HOST_INFOFLAG_CHASSIS) {
        match chassis_file {
            None => {},
            Some(Ok(c)) => {
                let code = trim(c.as_str());
                host.chassis = chassis_type_name(code.as_str());
            },
            Some(Err(e)) => {
                let mut message = copy_str("Can't read from /sys/devices/virtual/dmi/id/chassis_type - ");
                append_str(&mut message, e.as_str());
                return Err(ModuleError::new("Host", message));
            },
        }
    }
    Ok(host)
}

} // verus!
