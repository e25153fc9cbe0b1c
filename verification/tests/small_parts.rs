use win_sys::bytes::text_of_units;
use win_sys::battery::{battery, Battery, PowerStatus};
use win_sys::caps::{probe, Caps};
use win_sys::conns::{
    ipv4_from_raw, port_from_raw, tcp4_conn, tcp6_conn, tcp_state_str, udp4_conn, udp6_conn,
    IpAddress,
};
use win_sys::disk::{disk_counters, disk_label, disk_model, model_from_descriptor};
use win_sys::gpu::{bytes_to_mb, gpu_name};
use win_sys::gpuproc::{engtype_from_instance, pid_from_instance};
use win_sys::http::{check_status, connect_error, HttpError};
use win_sys::rdns::{host_name, sockaddr_bytes, worth_resolving};
use win_sys::wic::{image_size_ok, rgba_layout};

fn wide(s: &str) -> Vec<u16> {
    s.encode_utf16().collect()
}

#[test]
fn loopback_is_not_resolved() {
    assert!(!worth_resolving(IpAddress::V4([127, 0, 0, 1])));
    let mut v6 = [0u8; 16];
    v6[15] = 1;
    assert!(!worth_resolving(IpAddress::V6(v6)));
}

#[test]
fn unspecified_is_not_resolved_but_public_is() {
    assert!(!worth_resolving(IpAddress::V4([0, 0, 0, 0])));
    assert!(!worth_resolving(IpAddress::V6([0u8; 16])));
    assert!(worth_resolving(IpAddress::V4([1, 1, 1, 1])));
    let mut v6 = [0u8; 16];
    v6[0] = 0x26;
    v6[15] = 1;
    assert!(worth_resolving(IpAddress::V6(v6)));
}

#[test]
fn sockaddr_layouts() {
    assert_eq!(
        sockaddr_bytes(IpAddress::V4([1, 2, 3, 4])),
        vec![2, 0, 0, 0, 1, 2, 3, 4, 0, 0, 0, 0, 0, 0, 0, 0]
    );
    let mut o = [0u8; 16];
    for (i, b) in o.iter_mut().enumerate() {
        *b = i as u8 + 1;
    }
    let s = sockaddr_bytes(IpAddress::V6(o));
    assert_eq!(s.len(), 28);
    assert_eq!(s[0], 23);
    assert_eq!(&s[8..24], &o[..]);
    assert_eq!(&s[24..], &[0, 0, 0, 0]);
}

#[test]
fn host_name_is_trimmed_or_none() {
    let mut u = wide("  one.one.one.one ");
    u.push(0);
    u.extend(wide("garbage"));
    assert_eq!(host_name(&u).as_deref(), Some("one.one.one.one"));
    assert_eq!(host_name(&wide("   ")), None);
    assert_eq!(host_name(&[0u16, 65]), None);
}

#[test]
fn tcp_states_have_names() {
    assert_eq!(tcp_state_str(2), "listen");
    assert_eq!(tcp_state_str(5), "established");
    assert_eq!(tcp_state_str(12), "delete-tcb");
    assert_eq!(tcp_state_str(0), "?");
    assert_eq!(tcp_state_str(13), "?");
}

#[test]
fn ports_and_addresses_come_in_network_order() {
    // 443 in network order is 0x01BB -> bytes BB 01 read little-endian.
    assert_eq!(port_from_raw(0xBB01), 443);
    assert_eq!(port_from_raw(0xFFFF_5000), 80);
    assert_eq!(ipv4_from_raw(0x0100_007F), IpAddress::V4([127, 0, 0, 1]));
}

#[test]
fn listening_sockets_are_recognised() {
    let l = tcp4_conn(0, 0x5000, 0x0101_0101, 0x5000, 2, 7);
    assert_eq!(l.proto, "tcp");
    assert_eq!(l.state, "listen");
    assert_eq!(l.remote, None);
    assert_eq!(l.local_port, 80);
    assert_eq!(l.pid, 7);
    assert!(l.listening());

    let e = tcp4_conn(0x0100_007F, 0x5000, 0x0101_0101, 0xBB01, 5, 9);
    assert_eq!(e.remote, Some(IpAddress::V4([1, 1, 1, 1])));
    assert_eq!(e.remote_port, 443);
    assert!(!e.listening());

    let u = udp4_conn(0, 0x3500, 4);
    assert_eq!(u.proto, "udp");
    assert_eq!(u.state, "udp");
    assert_eq!(u.remote, None);
    assert_eq!(u.remote_port, 0);
    assert_eq!(u.local_port, 53);
    assert!(u.listening());

    let a = [7u8; 16];
    let t6 = tcp6_conn(a, 0x5000, a, 0x5000, 5, 1);
    assert_eq!(t6.local, IpAddress::V6(a));
    assert_eq!(t6.remote, Some(IpAddress::V6(a)));
    let u6 = udp6_conn(a, 0x5000, 1);
    assert_eq!(u6.local, IpAddress::V6(a));
    assert!(u6.listening());
}

#[test]
fn battery_absent_is_none() {
    let st = PowerStatus { ac_line_status: 1, battery_flag: 128, battery_life_percent: 255, battery_life_time: u32::MAX };
    assert_eq!(battery(st, Some((50_000, 45_000, 10))), None);
}

#[test]
fn battery_fields_follow_the_status() {
    let st = PowerStatus { ac_line_status: 1, battery_flag: 8, battery_life_percent: 80, battery_life_time: u32::MAX };
    let b = battery(st, Some((50_000, 0, 12))).expect("battery");
    assert_eq!(
        b,
        Battery {
            percent: Some(80),
            ac_online: true,
            charging: true,
            remaining_s: None,
            design_mwh: Some(50_000),
            full_mwh: None,
            cycles: Some(12),
        }
    );
    let st = PowerStatus { ac_line_status: 0, battery_flag: 1, battery_life_percent: 255, battery_life_time: 3600 };
    let b = battery(st, None).expect("battery");
    assert_eq!(b.percent, None);
    assert!(!b.ac_online);
    assert!(!b.charging);
    assert_eq!(b.remaining_s, Some(3600));
    assert_eq!(b.design_mwh, None);
}

#[test]
fn probe_gives_caps() {
    assert_eq!(probe(), Caps {});
}

#[test]
fn disk_counters_clamp_negative() {
    let c = disk_counters(-5, 1000);
    assert_eq!(c.read_bytes, 0);
    assert_eq!(c.write_bytes, 1000);
}

fn descriptor(model: &[u8]) -> Vec<u8> {
    let mut b = vec![0u8; 20];
    b[12] = 20;
    b.extend_from_slice(model);
    b.push(0);
    b
}

#[test]
fn disk_model_reads_descriptor_string() {
    let d = descriptor(b"  Samsung SSD 980  ");
    assert_eq!(model_from_descriptor(&d).as_deref(), Some("Samsung SSD 980"));
    assert_eq!(disk_model(3, Some(&d)), "Samsung SSD 980");
    // Offset zero: no model string.
    let z = vec![0u8; 24];
    assert_eq!(model_from_descriptor(&z), None);
    assert_eq!(disk_model(3, Some(&z)), "Disk 3");
    // Blank model falls back to the label too.
    let blank = descriptor(b"   ");
    assert_eq!(model_from_descriptor(&blank), None);
    // No terminating NUL.
    let mut open = vec![0u8; 16];
    open[12] = 16;
    open.extend_from_slice(b"abc");
    assert_eq!(model_from_descriptor(&open), None);
    // Invalid UTF-8 is replaced, not dropped.
    let bad = descriptor(&[0x41, 0xFF, 0x42]);
    assert_eq!(model_from_descriptor(&bad).as_deref(), Some("A\u{FFFD}B"));
    assert_eq!(disk_model(12, None), "Disk 12");
    assert_eq!(disk_label(0), "Disk 0");
}

#[test]
fn gpu_names_and_sizes() {
    let mut b = b" NVIDIA GeForce RTX 3060 ".to_vec();
    b.push(0);
    b.extend_from_slice(b"junk");
    assert_eq!(gpu_name(&b), "NVIDIA GeForce RTX 3060");
    assert_eq!(gpu_name(b"Radeon"), "Radeon");
    assert_eq!(bytes_to_mb(8 * 1024 * 1024 * 1024), 8192);
    assert_eq!(bytes_to_mb(1048575), 0);
}

#[test]
fn gpu_instance_names_are_parsed() {
    let n = "pid_1234_luid_0x00000000_0x0000D1B7_phys_0_eng_0_engtype_3D";
    assert_eq!(pid_from_instance(n), Some(1234));
    assert_eq!(engtype_from_instance(n).as_deref(), Some("3D"));
    assert_eq!(pid_from_instance("luid_0x1_pid_5"), None);
    assert_eq!(pid_from_instance("pid_abc_x"), None);
    assert_eq!(pid_from_instance("pid_77"), Some(77));
    assert_eq!(engtype_from_instance("pid_1_eng_0"), None);
    assert_eq!(engtype_from_instance("engtype_A_engtype_VideoDecode").as_deref(), Some("VideoDecode"));
}

#[test]
fn http_errors_read_well() {
    assert!(check_status(200).is_ok());
    let e = check_status(404).unwrap_err();
    assert_eq!(e, HttpError::Http { status: 404 });
    assert_eq!(e.message(), "soubor na serveru není (404) — vydavatel ho ještě nenahrál");
    assert_eq!(check_status(500).unwrap_err().message(), "server odpověděl chybou 500");
    let c = connect_error("example.org");
    assert_eq!(c, HttpError::Connect("spojení na example.org".to_string()));
    assert_eq!(c.message(), "nepodařilo se spojit se serverem (spojení na example.org)");
    assert_eq!(HttpError::Read("timeout".to_string()).message(), "přenos se přerušil (timeout)");
}

#[test]
fn image_sizes_and_layout() {
    assert!(image_size_ok(32, 32));
    assert!(image_size_ok(1024, 1));
    assert!(!image_size_ok(0, 32));
    assert!(!image_size_ok(1025, 32));
    assert_eq!(rgba_layout(16, 8), (64, 512));
}

#[test]
fn utf16_text_replaces_broken_surrogates() {
    let mut u: Vec<u16> = "a😀b".encode_utf16().collect();
    u.push(0);
    u.push(0x41);
    assert_eq!(text_of_units(&u), "a😀b");
    assert_eq!(text_of_units(&[0x61, 0xD83D, 0x62, 0xDE00, 0]), "a\u{FFFD}b\u{FFFD}");
    assert_eq!(text_of_units(&[0xD83D]), "\u{FFFD}");
    assert_eq!(text_of_units(&[0xFFFF, 0xE000]), "\u{FFFF}\u{E000}");
}
