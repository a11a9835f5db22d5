use crabfetch::modules::localip::{get_local_ips, ipv4_to_string, IfaceAddr, IfaceEntry};

fn entry(name: &str, addr: IfaceAddr) -> IfaceEntry {
    IfaceEntry { name: Ok(name.to_string()), addr }
}

#[test]
fn dotted_decimal() {
    assert_eq!(ipv4_to_string(192, 168, 1, 20), "192.168.1.20");
    assert_eq!(ipv4_to_string(0, 0, 0, 0), "0.0.0.0");
    assert_eq!(ipv4_to_string(255, 10, 0, 1), "255.10.0.1");
}

#[test]
fn virtual_interfaces_and_scoped_addresses_are_left_out() {
    let virt = vec!["lo".to_string(), "docker0".to_string()];
    let entries = vec![
        entry("lo", IfaceAddr::V4(127, 0, 0, 1)),
        entry("eth0", IfaceAddr::V4(10, 0, 0, 5)),
        entry("eth0", IfaceAddr::Other),
        entry("eth0", IfaceAddr::V6("fe80::1".to_string(), 2)),
        entry("eth0", IfaceAddr::V6("2001:db8::5".to_string(), 0)),
        entry("docker0", IfaceAddr::V4(172, 17, 0, 1)),
    ];
    let ips = get_local_ips(&virt, &entries).ok().unwrap();
    let got: Vec<(String, String)> = ips.into_iter().map(|i| (i.interface, i.ip_addr)).collect();
    assert_eq!(got, vec![
        ("eth0".to_string(), "10.0.0.5".to_string()),
        ("eth0 (v6)".to_string(), "2001:db8::5".to_string()),
    ]);
}

#[test]
fn unreadable_name_is_an_error() {
    let entries = vec![IfaceEntry { name: Err("bad utf-8".to_string()), addr: IfaceAddr::Other }];
    let e = get_local_ips(&Vec::new(), &entries).err().unwrap();
    assert_eq!(e.module_name, "LocalIP");
    assert_eq!(e.message, "Failed to convert interface name into Rust string: bad utf-8");
}

#[test]
fn only_the_first_entries_are_looked_at() {
    let entries: Vec<IfaceEntry> = (0..30u8).map(|i| entry("eth0", IfaceAddr::V4(10, 0, 0, i))).collect();
    let ips = get_local_ips(&Vec::new(), &entries).ok().unwrap();
    assert_eq!(ips.len(), 26);
    assert_eq!(ips[25].ip_addr, "10.0.0.25");
}
