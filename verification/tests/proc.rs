use win_sys::proc::{
    grown_len, initial_len, parse_processes, query_step, QueryStep, GROWTH_SLACK, INITIAL_BUFFER,
    MAX_BUFFER, STATUS_INFO_LENGTH_MISMATCH,
};
use win_sys::Error;

// Regression for the endless loop: after every "too little room" the
// buffer must really grow, whatever the kernel asks for.
#[test]
fn buffer_always_grows_when_kernel_asks_for_more() {
    let mut buf: Vec<u8> = Vec::new();
    buf.resize(512 * 1024, 0);

    // The treacherous band is "more than now, less than double".
    for need in [520 * 1024usize, 600 * 1024, 896 * 1024, 2_000 * 1024] {
        let before = buf.len();
        let want = grown_len(need, before);
        buf.resize(want, 0);
        assert!(
            buf.len() > before,
            "buffer did not grow: {before} → {} for a need of {need}",
            buf.len()
        );
        assert!(buf.len() >= need, "buffer {} is short of the need {need}", buf.len());
    }
}

#[test]
fn growth_formula() {
    assert_eq!(grown_len(600 * 1024, 512 * 1024), 1024 * 1024);
    assert_eq!(grown_len(2_000 * 1024, 512 * 1024), 2_000 * 1024 + GROWTH_SLACK);
    assert_eq!(grown_len(0, usize::MAX), usize::MAX);
    assert_eq!(initial_len(0), INITIAL_BUFFER);
    assert_eq!(initial_len(INITIAL_BUFFER + 1), INITIAL_BUFFER + 1);
}

#[test]
fn query_steps() {
    assert_eq!(query_step(0, 1234, 512 * 1024), QueryStep::Filled(1234));
    assert_eq!(query_step(STATUS_INFO_LENGTH_MISMATCH, 600 * 1024, 512 * 1024), QueryStep::Grow(1024 * 1024));
    match query_step(STATUS_INFO_LENGTH_MISMATCH, 10, MAX_BUFFER) {
        QueryStep::Fail(Error::Win32 { code, .. }) => assert_eq!(code, STATUS_INFO_LENGTH_MISMATCH),
        other => panic!("expected a failure, got {other:?}"),
    }
    match query_step(-5, 0, 512) {
        QueryStep::Fail(Error::Win32 { code, call }) => {
            assert_eq!(code, -5);
            assert_eq!(call, "NtQuerySystemInformation(SystemProcessInformation)");
        }
        other => panic!("expected a failure, got {other:?}"),
    }
}

fn put_u32(b: &mut [u8], off: usize, v: u32) {
    b[off..off + 4].copy_from_slice(&v.to_le_bytes());
}

fn put_u64(b: &mut [u8], off: usize, v: u64) {
    b[off..off + 8].copy_from_slice(&v.to_le_bytes());
}

#[test]
fn walk_reads_records() {
    let base: u64 = 0x1000;
    let mut buf = vec![0u8; 1024];
    // Record 0: the idle process, next record at 256.
    put_u32(&mut buf, 0, 256);
    // Record 1 at 256: pid 1234, parent 4, name "ab" at offset 600.
    let r = 256;
    put_u32(&mut buf, r + 4, 7); // threads
    put_u64(&mut buf, r + 8, (-5i64) as u64); // private working set, negative
    put_u64(&mut buf, r + 40, 100); // user time
    put_u64(&mut buf, r + 48, 50); // kernel time
    buf[r + 56] = 4; // name length in bytes
    put_u64(&mut buf, r + 64, base + 600);
    put_u64(&mut buf, r + 80, 1234);
    put_u64(&mut buf, r + 88, 4);
    put_u32(&mut buf, r + 96, 33); // handles
    put_u64(&mut buf, r + 232, 77); // read bytes
    buf[600] = b'a';
    buf[602] = b'b';
    let procs = parse_processes(&buf, 1024, base).expect("walk");
    assert_eq!(procs.len(), 2);
    assert_eq!(procs[0].name, "System Idle Process");
    assert_eq!(procs[1].pid, 1234);
    assert_eq!(procs[1].parent_pid, 4);
    assert_eq!(procs[1].name, "ab");
    assert_eq!(procs[1].cpu_time_100ns, 150);
    assert_eq!(procs[1].ws_priv_bytes, 0);
    assert_eq!(procs[1].threads, 7);
    assert_eq!(procs[1].handles, 33);
    assert_eq!(procs[1].io_read_bytes, 77);
}

#[test]
fn walk_rejects_bad_offsets() {
    let mut buf = vec![0u8; 512];
    put_u32(&mut buf, 0, 400); // next record would not fit
    match parse_processes(&buf, 512, 0) {
        Err(Error::Win32 { call, .. }) => assert!(call.contains("offset")),
        other => panic!("expected an error, got {other:?}"),
    }
    put_u32(&mut buf, 0, 4000); // next offset past the filled part
    match parse_processes(&buf, 512, 0) {
        Err(Error::Win32 { call, .. }) => assert!(call.contains("next_entry_offset")),
        other => panic!("expected an error, got {other:?}"),
    }
    assert!(parse_processes(&buf, 100, 0).is_err());
}
