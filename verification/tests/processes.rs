use win_sys::procinfo::{
    critical_name, image_path_text, is_service_sid, package_family_text, protection, ProcessFacts,
    Protection,
};
use win_sys::rm::{holder_from, holders_from, list_status_ok, HolderKind, RmProcessInfo};
use win_sys::smart::{nvme_health_from, nvme_query, NvmeHealth};
use win_sys::sysowner::{owned_by_trusted_installer, owner_query_path, TRUSTED_INSTALLER_SID};
use win_sys::thermal::{
    hwinfo_layout_ok, hwinfo_value_offset, label_score, sensor_kind, SensorKind, TempSource,
};
use win_sys::trust::{cert_name, signature_status, signer_subject, SignatureStatus};
use win_sys::Error;

fn wide(s: &str) -> Vec<u16> {
    s.encode_utf16().collect()
}

#[test]
fn critical_names_ignore_ascii_case() {
    assert!(critical_name("csrss.exe"));
    assert!(critical_name("WinLogon.EXE"));
    assert!(critical_name("memory compression"));
    assert!(!critical_name("explorer.exe"));
    assert!(!critical_name("csrss"));
}

#[test]
fn service_sids() {
    assert!(is_service_sid("S-1-5-18"));
    assert!(is_service_sid("S-1-5-20"));
    assert!(!is_service_sid("S-1-5-21-1-2-3-1001"));
}

#[test]
fn protection_levels() {
    assert_eq!(protection(4, "System", None), Protection::Critical);
    assert_eq!(protection(0, "Idle", None), Protection::Critical);
    assert_eq!(protection(600, "csrss.exe", None), Protection::Critical);
    assert_eq!(protection(900, "unknown.exe", None), Protection::System);
    let f = ProcessFacts { break_on_termination: Some(1), extended_flags: None, service_token: false };
    assert_eq!(protection(900, "a.exe", Some(f)), Protection::Critical);
    let f = ProcessFacts { break_on_termination: Some(0), extended_flags: Some(2), service_token: true };
    assert_eq!(protection(900, "a.exe", Some(f)), Protection::Protected);
    let f = ProcessFacts { break_on_termination: None, extended_flags: Some(1), service_token: true };
    assert_eq!(protection(900, "a.exe", Some(f)), Protection::System);
    let f = ProcessFacts { break_on_termination: None, extended_flags: None, service_token: false };
    assert_eq!(protection(900, "a.exe", Some(f)), Protection::User);
    assert_eq!(protection(900, "SMSS.EXE", Some(f)), Protection::Critical);
}

#[test]
fn image_and_package_text() {
    assert_eq!(image_path_text(&wide("C:\\x.exeJUNK"), 8), "C:\\x.exe");
    let mut u = wide("Microsoft.App_8wekyb3d8bbwe");
    u.push(0);
    u.push(65);
    assert_eq!(package_family_text(&u).as_deref(), Some("Microsoft.App_8wekyb3d8bbwe"));
    assert_eq!(package_family_text(&[0, 65]), None);
}

#[test]
fn holder_kinds_from_raw() {
    assert_eq!(HolderKind::from_raw(1), HolderKind::Window);
    assert_eq!(HolderKind::from_raw(2), HolderKind::Window);
    assert_eq!(HolderKind::from_raw(3), HolderKind::Service);
    assert_eq!(HolderKind::from_raw(4), HolderKind::Explorer);
    assert_eq!(HolderKind::from_raw(5), HolderKind::Console);
    assert_eq!(HolderKind::from_raw(1000), HolderKind::Critical);
    assert_eq!(HolderKind::from_raw(0), HolderKind::Unknown);
    assert_eq!(HolderKind::Critical.as_str(), "critical");
    assert_eq!(HolderKind::Service.as_str(), "service");
    assert_eq!(HolderKind::Window.as_str(), "window");
    assert_eq!(HolderKind::Console.as_str(), "console");
    assert_eq!(HolderKind::Explorer.as_str(), "explorer");
    assert_eq!(HolderKind::Unknown.as_str(), "unknown");
}

#[test]
fn holders_are_read_up_to_the_count() {
    let mut name = wide("Word");
    name.push(0);
    let a = RmProcessInfo { pid: 10, app_name: name, service_short_name: vec![0], app_type: 1 };
    let b = RmProcessInfo { pid: 11, app_name: wide("Spooler"), service_short_name: wide("Spooler"), app_type: 3 };
    let h = holder_from(&a);
    assert_eq!((h.pid, h.name.as_str(), h.kind, h.service.clone()), (10, "Word", HolderKind::Window, None));
    let hs = holders_from(&[a.clone(), b.clone()], 1);
    assert_eq!(hs.len(), 1);
    let hs = holders_from(&[a, b], 5);
    assert_eq!(hs.len(), 2);
    assert_eq!(hs[1].service.as_deref(), Some("Spooler"));
    assert_eq!(hs[1].kind, HolderKind::Service);
    assert!(list_status_ok(0));
    assert!(list_status_ok(234));
    assert!(!list_status_ok(5));
}

#[test]
fn trusted_installer_ownership() {
    assert_eq!(owned_by_trusted_installer(&Some(TRUSTED_INSTALLER_SID.to_string())), Some(true));
    assert_eq!(
        owned_by_trusted_installer(&Some(TRUSTED_INSTALLER_SID.to_lowercase())),
        Some(true)
    );
    assert_eq!(owned_by_trusted_installer(&Some("S-1-5-32-544".to_string())), Some(false));
    assert_eq!(owned_by_trusted_installer(&None), None);
    assert_eq!(owner_query_path("  C:\\Windows  ").as_deref(), Some("C:\\Windows"));
    assert_eq!(owner_query_path("   "), None);
}

#[test]
fn signatures_are_classified() {
    assert_eq!(signature_status(0), SignatureStatus::Valid);
    assert_eq!(signature_status(-2146762496), SignatureStatus::Unsigned);
    assert_eq!(signature_status(-2146762749), SignatureStatus::Unsigned);
    assert_eq!(signature_status(-2146762751), SignatureStatus::Unsigned);
    assert_eq!(signature_status(-5), SignatureStatus::Invalid { code: -5 });
    let s = signer_subject(&Ok(SignatureStatus::Valid), Some("Contoso".to_string()));
    assert!(s.valid);
    assert_eq!(s.subject.as_deref(), Some("Contoso"));
    let s = signer_subject(&Ok(SignatureStatus::Unsigned), None);
    assert!(!s.valid);
    let s = signer_subject(&Err(Error::Win32 { call: "WinVerifyTrust", code: 1 }), Some("X".to_string()));
    assert!(!s.valid);
    assert_eq!(s.subject.as_deref(), Some("X"));
    let mut u = wide(" Microsoft Corporation ");
    u.push(0);
    assert_eq!(cert_name(&u).as_deref(), Some("Microsoft Corporation"));
    assert_eq!(cert_name(&[0]), None);
}

#[test]
fn temperature_sources_and_labels() {
    assert_eq!(TempSource::Hwinfo.as_str(), "HWiNFO");
    assert_eq!(TempSource::Lhm.as_str(), "LibreHardwareMonitor");
    assert_eq!(TempSource::Acpi.as_str(), "ACPI");
    assert_eq!(TempSource::Unavailable.as_str(), "nedostupné");
    assert_eq!(label_score("CPU Package"), 3);
    assert_eq!(label_score("CPU Die (average)"), 2);
    assert_eq!(label_score("Core 0"), 1);
    assert_eq!(label_score("CPU (Tctl/Tdie)"), 2);
    assert_eq!(label_score("CPU (Tctl)"), 1);
    assert_eq!(label_score("GPU Temperature"), 0);
    assert_eq!(sensor_kind("CPU Package"), SensorKind::Package);
    assert_eq!(sensor_kind("Core #1"), SensorKind::Core);
    assert_eq!(sensor_kind("GPU Core"), SensorKind::Core);
    assert_eq!(sensor_kind("Motherboard"), SensorKind::Other);
    assert!(hwinfo_layout_ok(316, 100));
    assert!(!hwinfo_layout_ok(44, 100));
    assert!(!hwinfo_layout_ok(316, 0));
    assert!(!hwinfo_layout_ok(316, 10_000));
    assert_eq!(hwinfo_value_offset(316), 284);
}

#[test]
fn nvme_query_layout() {
    let q = nvme_query();
    assert_eq!(q.len(), 560);
    assert_eq!(&q[..4], &[50, 0, 0, 0]);
    assert_eq!(&q[8..12], &[3, 0, 0, 0]);
    assert_eq!(&q[12..16], &[2, 0, 0, 0]);
    assert_eq!(&q[16..20], &[2, 0, 0, 0]);
    assert_eq!(&q[24..28], &[40, 0, 0, 0]);
    assert_eq!(&q[28..32], &[0, 2, 0, 0]);
}

#[test]
fn nvme_health_is_read_from_the_log() {
    let mut b = vec![0u8; 560];
    b[24] = 40;
    let log = 48;
    b[log] = 1;
    b[log + 1] = (313u16 & 0xff) as u8;
    b[log + 2] = (313u16 >> 8) as u8;
    b[log + 3] = 100;
    b[log + 5] = 3;
    b[log + 128] = 0x10;
    b[log + 129] = 0x27;
    assert_eq!(
        nvme_health_from(&b),
        Some(NvmeHealth { temp_c: 40, spare_pct: 100, used_pct: 3, power_on_hours: 10_000, critical_warning: 1 })
    );
    // No temperature: the drive did not answer.
    let mut z = b.clone();
    z[log + 1] = 0;
    z[log + 2] = 0;
    assert_eq!(nvme_health_from(&z), None);
    // Too short for the log page.
    assert_eq!(nvme_health_from(&b[..559]), None);
}

#[test]
fn signer_subject_is_trimmed_and_never_empty() {
    let s = signer_subject(&Ok(SignatureStatus::Valid), Some("  Contoso Ltd \t".to_string()));
    assert!(s.valid);
    assert_eq!(s.subject.as_deref(), Some("Contoso Ltd"));
    let s = signer_subject(&Ok(SignatureStatus::Invalid { code: -5 }), Some("   ".to_string()));
    assert!(!s.valid);
    assert_eq!(s.subject, None);
    let s = signer_subject(&Ok(SignatureStatus::Valid), Some(String::new()));
    assert_eq!(s.subject, None);
}
