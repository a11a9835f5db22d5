use vstd::prelude::*;
use crate::color::CrabFetchColor;
use crate::config::Configuration;
use crate::module::{entry_styled, module_styled, style_entry, style_module, ModuleError};
use crate::text::{
    append_str, contains_str, copy_str, nat_to_dec, push_char, replace_str, seq_contains, seq_replace, str_contains,
    str_eq, u64_to_string,
};
use crate::util::{bit_if, flag_set, is_flag_set_u32, lemma_flags2, lemma_flags3};

verus! {

/// A network interface and one of its addresses, as text.
pub struct LocalIPInfo {
    pub interface: String,
    pub ip_addr: String,
}

/// The options of the local IP entry.
pub struct LocalIPConfiguration {
    pub title: String,
    pub title_color: Option<CrabFetchColor>,
    pub title_bold: Option<bool>,
    pub title_italic: Option<bool>,
    pub separator: Option<String>,
    pub format: String,
}

impl LocalIPInfo {
    /// Text with its placeholders filled in.
    pub open spec fn filled(&self, text: Seq<char>) -> Seq<char> {
        seq_replace(seq_replace(text, "{interface}"@, self.interface@), "{addr}"@, self.ip_addr@)
    }

    /// Everything unknown.
    pub fn new() -> (r: LocalIPInfo)
        ensures
            r.interface@ == "Unknown"@,
            r.ip_addr@ == "Unknown"@,
    {
        LocalIPInfo { interface: copy_str("Unknown"), ip_addr: copy_str("Unknown") }
    }

    /// Fills the placeholders of `text`.
    pub fn replace_placeholders(&self, text: &str, _config: &Configuration) -> (r: String)
        ensures
            r@ == self.filled(text@),
    {
        proof {
            reveal_strlit("{interface}");
            reveal_strlit("{addr}");
        }
        let t0 = replace_str(text, "{interface}", self.interface.as_str());
        let t1 = replace_str(t0.as_str(), "{addr}", self.ip_addr.as_str());
        t1
    }

    /// The entry: title and format with the placeholders filled in.
    pub fn style(&self, config: &Configuration) -> (r: (String, String))
        ensures
            module_styled(
                r,
                *config,
                config.localip.title_color,
                config.localip.title_bold,
                config.localip.title_italic,
                config.localip.separator,
                self.filled(config.localip.title@),
                self.filled(config.localip.format@),
            ),
    {
        let title = self.replace_placeholders(config.localip.title.as_str(), config);
        let value = self.replace_placeholders(config.localip.format.as_str(), config);
        style_module(
            config,
            &config.localip.title_color,
            config.localip.title_bold,
            config.localip.title_italic,
            &config.localip.separator,
            title.as_str(),
            value.as_str(),
        )
    }

    /// The entry when nothing could be found: `Unknown` in the title's placeholders and as the value.
    pub fn unknown_output(config: &Configuration) -> (r: (String, String))
        ensures
            entry_styled(
                r,
                *config,
                config.localip.title_color,
                config.localip.title_bold,
                config.localip.title_italic,
                config.localip.separator,
                seq_replace(seq_replace(config.locale.title@, "{interface}"@, "Unknown"@), "{addr}"@, "Unknown"@),
                "Unknown"@,
            ),
    {
        proof {
            reveal_strlit("{interface}");
            reveal_strlit("{addr}");
        }
        let u0 = replace_str(config.locale.title.as_str(), "{interface}", "Unknown");
        let u1 = replace_str(u0.as_str(), "{addr}", "Unknown");
        style_entry(
            config,
            &config.localip.title_color,
            config.localip.title_bold,
            config.localip.title_italic,
            &config.localip.separator,
            u1.as_str(),
            "Unknown",
        )
    }
}


/// The address that an interface reports.
pub enum IfaceAddr {
    /// An IPv4 address, by its four octets in order.
    V4(u8, u8, u8, u8),
    /// An IPv6 address, as the standard library writes it, and its scope.
    V6(String, u32),
    /// An address of another family.
    Other,
}

/// One entry of the system's interface list: the interface's name (or the error of reading it
/// as text) and its address.
pub struct IfaceEntry {
    pub name: Result<String, String>,
    pub addr: IfaceAddr,
}

/// An IPv4 address in dotted decimal form.
pub open spec fn ipv4_text(a: u8, b: u8, c: u8, d: u8) -> Seq<char> {
    nat_to_dec(a as nat) + "."@ + nat_to_dec(b as nat) + "."@ + nat_to_dec(c as nat) + "."@
        + nat_to_dec(d as nat)
}

/// Writes an IPv4 address in dotted decimal form.
pub fn ipv4_to_string(a: u8, b: u8, c: u8, d: u8) -> (r: String)
    ensures
        r@ == ipv4_text(a, b, c, d),
{
    proof { reveal_strlit("."); }
    let mut r = u64_to_string(a as u64);
    push_char(&mut r, '.');
    let t = u64_to_string(b as u64);
    append_str(&mut r, t.as_str());
    push_char(&mut r, '.');
    let t = u64_to_string(c as u64);
    append_str(&mut r, t.as_str());
    push_char(&mut r, '.');
    let t = u64_to_string(d as u64);
    append_str(&mut r, t.as_str());
    assert(r@ =~= ipv4_text(a, b, c, d));
    r
}

/// How many entries of the interface list are looked at, at most.
pub const IFACE_LIMIT: usize = 26;

/// The addresses that entries `i..` of the interface list give (interface and address
/// text), after `so_far`; the error message when a name cannot be read as text. Virtual
/// interfaces are passed over, as are IPv6 addresses with a scope and addresses of other
/// families; an IPv6 interface is marked ` (v6)`.
pub open spec fn collect_ips(
    virt: Seq<Seq<char>>,
    entries: Seq<IfaceEntry>,
    i: int,
    so_far: Seq<(Seq<char>, Seq<char>)>,
) -> Result<Seq<(Seq<char>, Seq<char>)>, Seq<char>>
    decreases entries.len() - i,
{
    if i < 0 || i >= entries.len() || i >= IFACE_LIMIT {
        Ok(so_far)
    } else {
        match entries[i].name {
            Err(e) => Err("Failed to convert interface name into Rust string: "@ + e@),
            Ok(n) => if virt.contains(n@) {
                collect_ips(virt, entries, i + 1, so_far)
            } else {
                match entries[i].addr {
                    IfaceAddr::V4(a, b, c, d) => collect_ips(virt, entries, i + 1, so_far.push((n@, ipv4_text(a, b, c, d)))),
                    IfaceAddr::V6(t, scope) => if scope == 0 {
                        collect_ips(virt, entries, i + 1, so_far.push((n@ + " (v6)"@, t@)))
                    } else {
                        collect_ips(virt, entries, i + 1, so_far)
                    },
                    IfaceAddr::Other => collect_ips(virt, entries, i + 1, so_far),
                }
            },
        }
    }
}

/// The (interface, address) of each entry.
pub open spec fn ips_view(v: Seq<LocalIPInfo>) -> Seq<(Seq<char>, Seq<char>)> {
    v.map_values(|x: LocalIPInfo| (x.interface@, x.ip_addr@))
}

/// The local addresses that the interface list (`entries`, in the order the system gives them,
/// of which the first 26 are looked at) holds, leaving out the interfaces named in `virt`
/// (the virtual devices); fails with an error of the `LocalIP` module on a name that is not
/// text.
pub fn get_local_ips(virt: &Vec<String>, entries: &Vec<IfaceEntry>) -> (r: Result<Vec<LocalIPInfo>, ModuleError>)
    ensures
        match collect_ips(virt.deep_view(), entries@, 0, Seq::empty()) {
            Ok(s) => r matches Ok(v) && ips_view(v@) == s,
            Err(m) => r matches Err(e) && e.module_name@ == "LocalIP"@ && e.message@ == m,
        },
{
    proof {
        reveal_strlit(" (v6)");
        reveal_strlit("Failed to convert interface name into Rust string: ");
    }
    let ghost vv = virt.deep_view();
    let mut out: Vec<LocalIPInfo> = Vec::new();
    let mut i: usize = 0;
    assert(ips_view(out@) =~= Seq::<(Seq<char>, Seq<char>)>::empty());
    while i < entries.len() && i < IFACE_LIMIT
        invariant
            0 <= i <= entries.len(),
            vv == virt.deep_view(),
            collect_ips(vv, entries@, 0, Seq::empty()) == collect_ips(vv, entries@, i as int, ips_view(out@)),
        decreases entries.len() - i,
    {
        let ghost before = out@;
        let entry = &entries[i];
        match &entry.name {
            Err(e) => {
                let mut m = copy_str("Failed to convert interface name into Rust string: ");
                append_str(&mut m, e.as_str());
                return Err(ModuleError::new("LocalIP", m));
            },
            Ok(n) => {
                if contains_str(virt, n.as_str()) {
                    i += 1;
                    continue;
                }
                match &entry.addr {
                    IfaceAddr::V4(a, b, c, d) => {
                        let ip = ipv4_to_string(*a, *b, *c, *d);
                        out.push(LocalIPInfo { interface: copy_str(n.as_str()), ip_addr: ip });
                        assert(ips_view(out@) =~= ips_view(before).push((n@, ipv4_text(*a, *b, *c, *d))));
                    },
                    IfaceAddr::V6(t, scope) => {
                        if *scope == 0 {
                            let mut name = copy_str(n.as_str());
                            append_str(&mut name, " (v6)");
                            out.push(LocalIPInfo { interface: name, ip_addr: copy_str(t.as_str()) });
                            assert(ips_view(out@) =~= ips_view(before).push((n@ + " (v6)"@, t@)));
                        }
                    },
                    IfaceAddr::Other => {},
                }
            },
        }
        i += 1;
    }
    Ok(out)
}


} // verus!
