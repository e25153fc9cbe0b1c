use win_sys::conns::IpAddress;
use win_sys::gpubasic::{detect, AdapterKey, BasicGpu};
use win_sys::ipcfg::{
    adapter_kind, adapters, address_walk_continues, collect_addresses, mac_text, sockaddr_to_ip,
    AdapterRow,
};
use win_sys::order::{key_less, stable_order, text_key_of};
use win_sys::security::{
    av_products, bitlocker, defender_status, firewall, flag, product_gone, protection, row_get,
    secure_boot, tpm, uac, AvRow, ProtectionSources, WmiRow,
};
use win_sys::wlan::{connection_from, merge_network, ssid_text, visible_networks, NetworkEntry, WifiNetwork};

fn v4(a: [u8; 4]) -> Vec<u8> {
    let mut b = vec![2u8, 0, 0, 0];
    b.extend_from_slice(&a);
    b.extend_from_slice(&[0; 8]);
    b
}

fn v6(a: [u8; 16]) -> Vec<u8> {
    let mut b = vec![23u8, 0, 0, 0, 0, 0, 0, 0];
    b.extend_from_slice(&a);
    b.extend_from_slice(&[0; 4]);
    b
}

#[test]
fn sockaddrs_become_addresses() {
    assert_eq!(sockaddr_to_ip(&v4([192, 168, 1, 10])), Some(IpAddress::V4([192, 168, 1, 10])));
    let a = [0xfeu8, 0x80, 0, 0, 0, 0, 0, 0, 1, 2, 3, 4, 5, 6, 7, 8];
    assert_eq!(sockaddr_to_ip(&v6(a)), Some(IpAddress::V6(a)));
    assert_eq!(sockaddr_to_ip(&[2]), None);
    assert_eq!(sockaddr_to_ip(&[2, 0, 0, 0, 1]), None);
    assert_eq!(sockaddr_to_ip(&[17, 0, 0, 0, 1, 2, 3, 4]), None);
    let list = vec![Some(v4([10, 0, 0, 1])), None, Some(vec![9, 9]), Some(v4([10, 0, 0, 2]))];
    assert_eq!(collect_addresses(&list), vec![IpAddress::V4([10, 0, 0, 1]), IpAddress::V4([10, 0, 0, 2])]);
}

#[test]
fn adapter_helpers() {
    assert_eq!(adapter_kind(6), "ethernet");
    assert_eq!(adapter_kind(71), "wifi");
    assert_eq!(adapter_kind(24), "loopback");
    assert_eq!(adapter_kind(131), "virtual");
    assert_eq!(adapter_kind(53), "virtual");
    assert_eq!(adapter_kind(1), "other");
    assert_eq!(mac_text(&[0x00, 0x1A, 0x2B, 0xFF, 0, 0, 0, 0], 4), "00:1A:2B:FF");
    assert_eq!(mac_text(&[1, 2], 6), "01:02");
    assert_eq!(mac_text(&[1, 2, 3, 4, 5, 6, 7, 8, 9], 9), "01:02:03:04:05:06:07:08");
    assert_eq!(mac_text(&[], 6), "");
    assert!(address_walk_continues(63));
    assert!(!address_walk_continues(64));
}

fn adapter(name: &str, if_type: u32, up: bool) -> AdapterRow {
    AdapterRow {
        if_type,
        friendly_name: name.to_string(),
        oper_status: if up { 1 } else { 2 },
        ..Default::default()
    }
}

#[test]
fn adapters_put_active_physical_first() {
    let mut eth = adapter("Ethernet", 6, true);
    eth.physical_address = vec![0xAA, 0xBB, 0xCC, 0xDD, 0xEE, 0xFF, 0, 0];
    eth.physical_length = 6;
    eth.transmit_link_speed = 1_000_000_000;
    eth.flags = 0x4;
    eth.unicast = vec![Some(v4([192, 168, 0, 5]))];
    eth.gateways = vec![Some(v4([192, 168, 0, 1]))];
    eth.dns = vec![Some(v4([1, 1, 1, 1]))];
    let rows = vec![
        adapter("vEthernet", 131, true),
        adapter("Wi-Fi", 71, false),
        adapter("Loopback", 24, true),
        eth,
        adapter("Bluetooth", 6, false),
        adapter("Tunnel", 131, false),
    ];
    let a = adapters(&rows);
    let names: Vec<&str> = a.iter().map(|x| x.name.as_str()).collect();
    assert_eq!(names, vec!["Ethernet", "vEthernet", "Bluetooth", "Wi-Fi", "Tunnel"]);
    let e = &a[0];
    assert_eq!(e.kind, "ethernet");
    assert_eq!(e.mac, "AA:BB:CC:DD:EE:FF");
    assert_eq!(e.link_mbps, 1000);
    assert!(e.up && e.dhcp);
    assert_eq!(e.ips, vec![IpAddress::V4([192, 168, 0, 5])]);
    assert_eq!(e.gateways, vec![IpAddress::V4([192, 168, 0, 1])]);
    assert_eq!(e.dns, vec![IpAddress::V4([1, 1, 1, 1])]);
    let mut unknown = adapter("X", 6, true);
    unknown.transmit_link_speed = u64::MAX;
    assert_eq!(adapters(&[unknown])[0].link_mbps, 0);
}

fn entry(ssid: &str, signal: u32, secured: bool, flags: u32) -> NetworkEntry {
    NetworkEntry { ssid: ssid.to_string(), signal, secured, flags }
}

#[test]
fn networks_are_merged_per_ssid_and_sorted_by_signal() {
    let entries = vec![
        entry("Home", 40, true, 0),
        entry("", 99, false, 0),
        entry("Cafe", 70, false, 0),
        entry("Home", 80, false, 1),
        entry("Office", 70, true, 0),
        entry("Cafe", 20, true, 0),
    ];
    let n = visible_networks(&entries);
    let ssids: Vec<&str> = n.iter().map(|x| x.ssid.as_str()).collect();
    assert_eq!(ssids, vec!["Home", "Cafe", "Office"]);
    assert_eq!(n[0].signal_pct, 80);
    assert!(n[0].secured);
    assert!(n[0].connected);
    assert_eq!(n[1].signal_pct, 70);
    assert!(!n[1].secured);
    assert!(!n[1].connected);
}

#[test]
fn merging_one_entry() {
    let mut v: Vec<WifiNetwork> = Vec::new();
    merge_network(&mut v, &entry("A", 10, true, 0));
    merge_network(&mut v, &entry("A", 5, false, 1));
    merge_network(&mut v, &entry("", 50, false, 0));
    assert_eq!(v, vec![WifiNetwork { ssid: "A".to_string(), signal_pct: 10, secured: true, connected: true }]);
}

#[test]
fn ssids_and_connections() {
    assert_eq!(ssid_text(b"HomeNet-garbage", 7), "HomeNet");
    assert_eq!(ssid_text(&[0x41, 0xFF], 2), "A\u{FFFD}");
    let long = [b'x'; 40];
    assert_eq!(ssid_text(&long, 40).len(), 32);
    assert_eq!(ssid_text(b"ab", 10), "ab");
    let c = connection_from(b"Home", 4, 77, 866_700, 400_000, true);
    assert_eq!(c.ssid, "Home");
    assert_eq!((c.signal_pct, c.rx_mbps, c.tx_mbps, c.secured), (77, 866, 400, true));
}

fn wmi(pairs: &[(&str, &str)]) -> WmiRow {
    pairs.iter().map(|(k, v)| (k.to_string(), v.to_string())).collect()
}

#[test]
fn wmi_rows_and_flags() {
    let r = wmi(&[("A", "True"), ("B", "-1"), ("C", "0"), ("D", "FALSE"), ("E", "yes"), ("A", "0")]);
    assert_eq!(row_get(&r, "A").as_deref(), Some("True"));
    assert_eq!(row_get(&r, "Z"), None);
    assert_eq!(flag(&r, "A"), Some(true));
    assert_eq!(flag(&r, "B"), Some(true));
    assert_eq!(flag(&r, "C"), Some(false));
    assert_eq!(flag(&r, "D"), Some(false));
    assert_eq!(flag(&r, "E"), None);
    assert_eq!(flag(&r, "Z"), None);
}

#[test]
fn leftover_products_need_a_missing_path() {
    assert!(product_gone(&Some(" C:\\Program Files\\AV\\av.exe ".to_string()), Some(false)));
    assert!(!product_gone(&Some("C:\\Program Files\\AV\\av.exe".to_string()), Some(true)));
    assert!(!product_gone(&Some("C:\\Program Files\\AV\\av.exe".to_string()), None));
    assert!(!product_gone(&Some("windowsdefender://".to_string()), Some(false)));
    assert!(!product_gone(&Some("   ".to_string()), Some(false)));
    assert!(!product_gone(&None, Some(false)));
}

#[test]
fn antivirus_products_are_read() {
    let rows = vec![
        AvRow {
            row: wmi(&[("displayName", "Windows Defender"), ("productState", "397568"), ("pathToSignedProductExe", "windowsdefender://")]),
            path_exists: None,
        },
        AvRow {
            row: wmi(&[("displayName", "Old AV"), ("productState", "262160"), ("pathToSignedProductExe", "C:\\Old\\av.exe")]),
            path_exists: Some(false),
        },
        AvRow { row: wmi(&[("displayName", "Broken"), ("productState", "x")]), path_exists: None },
        AvRow { row: wmi(&[("productState", "4096")]), path_exists: None },
    ];
    let p = av_products(&rows);
    assert_eq!(p.len(), 2);
    assert_eq!(p[0].name, "Windows Defender");
    assert!(p[0].enabled && p[0].up_to_date && !p[0].leftover);
    assert!(!p[1].enabled && !p[1].up_to_date && p[1].leftover);
}

#[test]
fn defender_firewall_uac_boot_tpm_and_volumes() {
    let d = defender_status(&[wmi(&[
        ("RealTimeProtectionEnabled", "True"),
        ("AntivirusSignatureAge", "2"),
        ("QuickScanAge", "4294967295"),
    ])])
    .expect("defender");
    assert!(d.realtime);
    assert_eq!(d.signature_age_days, Some(2));
    assert_eq!(d.quick_scan_age_days, None);
    assert_eq!(defender_status(&[]), None);
    assert_eq!(defender_status(&[wmi(&[("AntivirusSignatureAge", "2")])]), None);

    let f = firewall(Some(1), Some(0), None);
    assert_eq!((f.domain, f.private, f.public), (Some(true), Some(false), None));
    let u = uac(None, Some(5), None);
    assert!(!u.enabled);
    assert_eq!(u.admin_prompt, Some(5));
    assert!(u.secure_desktop);
    let u = uac(Some(1), None, Some(0));
    assert!(u.enabled && !u.secure_desktop);
    assert_eq!(u.admin_prompt, None);
    assert_eq!(secure_boot(Some(1)), Some(true));
    assert_eq!(secure_boot(None), None);

    assert_eq!(
        tpm(&[wmi(&[("IsEnabled_InitialValue", "True"), ("SpecVersion", " 2.0, 0, 1.38")])]),
        Some((true, "2.0".to_string()))
    );
    assert_eq!(tpm(&[wmi(&[])]), Some((false, String::new())));
    assert_eq!(tpm(&[]), None);

    let v = bitlocker(&[
        wmi(&[("DriveLetter", "C:"), ("ProtectionStatus", "1")]),
        wmi(&[("DriveLetter", "D:")]),
        wmi(&[("DriveLetter", "E:"), ("ProtectionStatus", "0")]),
    ]);
    assert_eq!(v.len(), 2);
    assert_eq!((v[0].letter.as_str(), v[0].protection), ("C:", 1));
    assert_eq!((v[1].letter.as_str(), v[1].protection), ("E:", 0));
}

#[test]
fn protection_gathers_every_source() {
    let src = ProtectionSources {
        firewall_domain: Some(1),
        enable_lua: Some(1),
        secure_boot: Some(0),
        volumes: vec![wmi(&[("DriveLetter", "C:"), ("ProtectionStatus", "1")])],
        ..Default::default()
    };
    let p = protection(&src);
    assert!(p.av.is_empty());
    assert_eq!(p.defender, None);
    assert_eq!(p.firewall.domain, Some(true));
    assert!(p.uac.enabled);
    assert_eq!(p.secure_boot, Some(false));
    assert_eq!(p.tpm, None);
    assert_eq!(p.volumes.len(), 1);
}

#[test]
fn gpu_with_most_memory_wins() {
    let k = |sub: &str, desc: Option<&str>, mem: Option<u64>| AdapterKey {
        subkey: sub.to_string(),
        driver_desc: desc.map(|d| d.to_string()),
        memory_size: mem,
    };
    let g = detect(&[
        k("0000", Some("Intel UHD"), Some(128 * 1048576)),
        k("Properties", Some("Fake"), Some(u64::MAX)),
        k("0001", Some("NVIDIA RTX"), Some(8192 * 1048576)),
        k("0002", None, Some(u64::MAX)),
        k("0003", Some("Basic Display"), None),
    ]);
    assert_eq!(g, BasicGpu { name: Some("NVIDIA RTX".to_string()), vram_total_mb: Some(8192) });
    let g = detect(&[k("0000", Some("Basic Display"), None)]);
    assert_eq!(g, BasicGpu { name: Some("Basic Display".to_string()), vram_total_mb: None });
    assert_eq!(detect(&[]), BasicGpu { name: None, vram_total_mb: None });
}

#[test]
fn stable_order_sorts_and_keeps_ties() {
    let keys = vec![vec![3], vec![1, 5], vec![1], vec![3], vec![]];
    assert_eq!(stable_order(&keys), vec![4, 2, 1, 0, 3]);
    assert!(stable_order(&[]).is_empty());
    assert!(key_less(&[1, 2], &[1, 3]));
    assert!(key_less(&[1], &[1, 0]));
    assert!(!key_less(&[2], &[1, 9]));
    assert!(!key_less(&[1, 2], &[1, 2]));
    assert_eq!(text_key_of("Ab"), vec![66, 99]);
}

#[test]
fn gpu_tie_goes_to_the_first_key() {
    let k = |sub: &str, desc: Option<&str>, mem: Option<u64>| AdapterKey {
        subkey: sub.to_string(),
        driver_desc: desc.map(|d| d.to_string()),
        memory_size: mem,
    };
    let g = detect(&[
        k("0000", Some("First"), Some(2 * 1048576 + 5)),
        k("0001", Some("Second"), Some(2 * 1048576 + 5)),
    ]);
    assert_eq!(g, BasicGpu { name: Some("First".to_string()), vram_total_mb: Some(2) });
    let g = detect(&[k("Properties", Some("Fake"), Some(1)), k("0001", None, Some(1))]);
    assert_eq!(g, BasicGpu { name: None, vram_total_mb: None });
}
