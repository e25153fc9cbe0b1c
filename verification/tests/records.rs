use std::collections::HashMap;

use win_sys::cpuinfo::{cpu_static, try_topology, CpuTopology};
use win_sys::etw::{
    add_net, blackbox_providers, decode_event, file_name_units, net_sum_fits, props_layout,
    realtime_providers, retry_after_collision, session_settings, take_net, EtwRecord, ProcEvent,
    KERNEL_DISK, KERNEL_NETWORK, KERNEL_PROCESS, KW_NET, KW_PROCESS,
};
use win_sys::usn::parse_usn_batch;

fn put32(b: &mut [u8], off: usize, v: u32) {
    b[off..off + 4].copy_from_slice(&v.to_le_bytes());
}

fn put16(b: &mut [u8], off: usize, v: u16) {
    b[off..off + 2].copy_from_slice(&v.to_le_bytes());
}

fn put64(b: &mut [u8], off: usize, v: u64) {
    b[off..off + 8].copy_from_slice(&v.to_le_bytes());
}

fn usn_record(file: u64, parent: u64, attrs: u32, name: &str) -> Vec<u8> {
    let units: Vec<u8> = name.encode_utf16().flat_map(|u| u.to_le_bytes()).collect();
    let len = (60 + units.len() + 7) / 8 * 8;
    let mut r = vec![0u8; len];
    put32(&mut r, 0, len as u32);
    put64(&mut r, 8, file);
    put64(&mut r, 16, parent);
    put32(&mut r, 52, attrs);
    put16(&mut r, 56, units.len() as u16);
    put16(&mut r, 58, 60);
    r[60..60 + units.len()].copy_from_slice(&units);
    r
}

#[test]
fn usn_batches_are_walked_record_by_record() {
    let mut buf = vec![0u8; 8];
    put64(&mut buf, 0, 777);
    buf.extend(usn_record(1, 5, 0x10, "Windows"));
    buf.extend(usn_record(2, 1, 0x20, "žluťoučký.txt"));
    let n = buf.len() as u32;
    let (next, entries) = parse_usn_batch(&buf, n);
    assert_eq!(next, 777);
    assert_eq!(entries.len(), 2);
    assert_eq!((entries[0].file_ref, entries[0].parent_ref, entries[0].attrs), (1, 5, 0x10));
    assert_eq!(entries[0].name, "Windows");
    assert_eq!(entries[1].name, "žluťoučký.txt");
    // The returned length cuts the second record off.
    let first = 8 + usn_record(1, 5, 0x10, "Windows").len() as u32;
    assert_eq!(parse_usn_batch(&buf, first + 10).1.len(), 1);
    // A record length of zero stops the walk.
    let mut bad = buf.clone();
    put32(&mut bad, 8, 0);
    assert!(parse_usn_batch(&bad, n).1.is_empty());
    assert!(parse_usn_batch(&buf, 8).1.is_empty());
}

fn add_core(buf: &mut Vec<u8>) {
    let mut r = vec![0u8; 48];
    put32(&mut r, 0, 0);
    put32(&mut r, 4, 48);
    buf.extend(r);
}

fn cache(buf: &mut Vec<u8>, level: u8, bytes: u32) {
    let mut r = vec![0u8; 48];
    put32(&mut r, 0, 2);
    put32(&mut r, 4, 48);
    r[8] = level;
    put32(&mut r, 12, bytes);
    buf.extend(r);
}

#[test]
fn topology_counts_cores_and_caches() {
    let mut b = Vec::new();
    add_core(&mut b);
    add_core(&mut b);
    cache(&mut b, 1, 32 * 1024);
    cache(&mut b, 1, 32 * 1024);
    cache(&mut b, 2, 512 * 1024);
    cache(&mut b, 3, 16 * 1024 * 1024);
    let t = try_topology(&b, b.len() as u32).expect("readable");
    assert_eq!(t, CpuTopology { physical_cores: 2, l1_kb: 64, l2_kb: 512, l3_kb: 16384 });
    // Only the returned length is read.
    assert_eq!(try_topology(&b, 96), Some(CpuTopology { physical_cores: 2, l1_kb: 0, l2_kb: 0, l3_kb: 0 }));
    // A length beyond the buffer cannot be read.
    assert_eq!(try_topology(&b[..100], 200), None);
    assert_eq!(try_topology(&[], 0), Some(CpuTopology::default()));
}

#[test]
fn cpu_static_collects_what_was_read() {
    let mut b = Vec::new();
    add_core(&mut b);
    cache(&mut b, 3, 8 * 1024 * 1024);
    let s = cpu_static(Some(8), Some("AMD Ryzen".to_string()), Some(3600), Some((&b, b.len() as u32)));
    assert_eq!(s.name, "AMD Ryzen");
    assert_eq!((s.base_mhz, s.physical_cores, s.logical_cores, s.l3_kb), (3600, 1, 8, 8192));
    let s = cpu_static(None, None, None, None);
    assert_eq!((s.name.as_str(), s.base_mhz, s.physical_cores, s.logical_cores), ("", 0, 0, 1));
    // A buffer that cannot be read to the end degrades to no cores or caches.
    let s = cpu_static(Some(2), None, None, Some((&b[..20], 200)));
    assert_eq!((s.physical_cores, s.l1_kb, s.l3_kb, s.logical_cores), (0, 0, 0, 2));
}

#[test]
fn etw_events_are_decoded() {
    let mut d = vec![0u8; 32];
    put32(&mut d, 0, 42);
    put32(&mut d, 4, 1500);
    assert_eq!(
        decode_event(KERNEL_NETWORK, 11, 0, &d[..8], 0),
        EtwRecord::Net { pid: 42, bytes: 1500, received: true }
    );
    assert_eq!(
        decode_event(KERNEL_NETWORK, 26, 0, &d[..8], 0),
        EtwRecord::Net { pid: 42, bytes: 1500, received: false }
    );
    assert_eq!(decode_event(KERNEL_NETWORK, 12, 0, &d, 0), EtwRecord::Ignored);
    assert_eq!(decode_event(KERNEL_NETWORK, 10, 0, &d[..7], 0), EtwRecord::Ignored);

    put32(&mut d, 12, 7);
    put32(&mut d, 20, 9);
    assert_eq!(
        decode_event(KERNEL_PROCESS, 1, 2, &d, 5),
        EtwRecord::Process(ProcEvent::Start { ts: 5, pid: 42, parent: 7 })
    );
    assert_eq!(
        decode_event(KERNEL_PROCESS, 1, 3, &d, 5),
        EtwRecord::Process(ProcEvent::Start { ts: 5, pid: 42, parent: 9 })
    );
    put32(&mut d, 28, 0xC000_0005);
    assert_eq!(
        decode_event(KERNEL_PROCESS, 2, 2, &d, 6),
        EtwRecord::Process(ProcEvent::Stop { ts: 6, pid: 42, exit_code: 0xC000_0005 })
    );
    assert_eq!(
        decode_event(KERNEL_PROCESS, 2, 1, &d, 6),
        EtwRecord::Process(ProcEvent::Stop { ts: 6, pid: 42, exit_code: 9 })
    );
    assert_eq!(decode_event(KERNEL_PROCESS, 2, 2, &d[..31], 6), EtwRecord::Ignored);
    assert_eq!(decode_event(KERNEL_DISK, 1, 2, &d, 6), EtwRecord::Ignored);
}

#[test]
fn net_totals_accumulate_and_drain() {
    let mut m: HashMap<u32, (u64, u64)> = HashMap::new();
    add_net(&mut m, 1, 100, true);
    add_net(&mut m, 1, 50, false);
    add_net(&mut m, 1, 20, true);
    add_net(&mut m, 2, 5, false);
    assert_eq!(m.get(&1), Some(&(120, 50)));
    assert_eq!(m.get(&2), Some(&(0, 5)));
    assert!(net_sum_fits(&m, 1, u64::MAX - 120, true));
    assert!(!net_sum_fits(&m, 1, u64::MAX - 119, true));
    assert!(net_sum_fits(&m, 9, u64::MAX, false));
    let taken = take_net(&mut m);
    assert!(m.is_empty());
    assert_eq!(taken.len(), 2);
    assert_eq!(taken.get(&1), Some(&(120, 50)));
    // After a take the totals start afresh.
    add_net(&mut m, 7, 9, false);
    let again = take_net(&mut m);
    assert_eq!(again.len(), 1);
    assert_eq!(again.get(&7), Some(&(0, 9)));
}

#[test]
fn session_setup_values() {
    let f = session_settings(true);
    assert_eq!((f.log_file_mode, f.flush_timer_s, f.maximum_file_size_mb, f.buffer_size_kb), (2, 60, 64, 64));
    let r = session_settings(false);
    assert_eq!((r.log_file_mode, r.flush_timer_s, r.maximum_file_size_mb, r.buffer_size_kb), (0x100, 1, 0, 64));
    assert_eq!(props_layout(120), (120, 1144, 2168));
    let name: Vec<u16> = "C:\\trace.etl".encode_utf16().collect();
    assert_eq!(file_name_units("C:\\trace.etl"), name);
    let long: String = std::iter::repeat('x').take(600).collect();
    assert_eq!(file_name_units(&long).len(), 511);
    assert_eq!(realtime_providers(), vec![(KERNEL_PROCESS, KW_PROCESS), (KERNEL_NETWORK, KW_NET)]);
    assert_eq!(blackbox_providers(), vec![(KERNEL_PROCESS, KW_PROCESS), (KERNEL_DISK, 0)]);
    assert!(retry_after_collision(183, false));
    assert!(!retry_after_collision(183, true));
    assert!(!retry_after_collision(0, false));
}
