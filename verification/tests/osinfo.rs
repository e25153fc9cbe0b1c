use win_sys::osinfo::{
    arch, last_online_scan, os_info, os_registry_readable, parse_utc, product_name, utc_sum_fits,
    wu_time, OsRegistry,
};

#[test]
fn utc_parsing_matches_known_epoch() {
    assert_eq!(parse_utc("1970-01-01 00:00:00"), Some(0));
    assert_eq!(parse_utc("2000-01-01 00:00:00"), Some(946_684_800));
    assert_eq!(parse_utc("2026-08-26 21:28:02"), Some(1_787_779_682));
    assert_eq!(parse_utc("nesmysl"), None);
}

fn typical_registry() -> OsRegistry {
    OsRegistry {
        current_build: Some("26100".to_string()),
        product_name: Some("Windows 10 Pro".to_string()),
        display_version: Some("24H2".to_string()),
        release_id: Some("2009".to_string()),
        ubr: Some(4652),
        install_date: Some(1_700_000_000),
        processor_architecture: Some("AMD64".to_string()),
        wu_detect: None,
        wu_install: Some("2026-08-26 21:28:02".to_string()),
        online_scan_times: vec![
            "2026-08-20 10:00:00".to_string(),
            "garbage".to_string(),
            "2026-08-25 10:00:00".to_string(),
        ],
        wu_start: Some(3),
        no_auto_update: Some(0),
    }
}

// Every Windows must give at least a name and a build.
#[test]
fn os_info_has_build() {
    let raw = typical_registry();
    assert!(os_registry_readable(&raw));
    let i = os_info(&raw);
    assert!(i.build > 0, "build not read");
    assert!(!i.product.is_empty(), "system name not read");
}

#[test]
fn windows_11_is_named_by_its_build() {
    let i = os_info(&typical_registry());
    assert_eq!(i.product, "Windows 11 Pro");
    assert_eq!(i.build, 26100);
    assert_eq!(i.ubr, 4652);
    assert_eq!(i.display_version.as_deref(), Some("24H2"));
    assert_eq!(i.arch, "x64");
    assert_eq!(i.install_ts, Some(1_700_000_000));
    assert_eq!(i.update_last_install, Some(1_787_779_682));
    // No Detect result: the newest online scan stands in for it.
    assert_eq!(i.update_last_search, parse_utc("2026-08-25 10:00:00"));
    assert_eq!(i.update_service_start, Some(3));
    assert!(!i.update_disabled_by_policy);
}

#[test]
fn older_builds_keep_their_name() {
    assert_eq!(product_name(19045, &Some("Windows 10 Pro".to_string())), "Windows 10 Pro");
    assert_eq!(product_name(22000, &None), "Windows");
}

#[test]
fn missing_values_degrade() {
    let i = os_info(&OsRegistry::default());
    assert_eq!(i.build, 0);
    assert_eq!(i.product, "Windows");
    assert_eq!(i.display_version, None);
    assert_eq!(i.arch, "");
    assert_eq!(i.update_last_search, None);
    assert!(!i.update_disabled_by_policy);
}

#[test]
fn release_id_stands_in_for_display_version() {
    let raw = OsRegistry {
        display_version: None,
        release_id: Some("1909".to_string()),
        no_auto_update: Some(1),
        ..OsRegistry::default()
    };
    let i = os_info(&raw);
    assert_eq!(i.display_version.as_deref(), Some("1909"));
    assert!(i.update_disabled_by_policy);
}

#[test]
fn architectures_are_named() {
    assert_eq!(arch(&Some("ARM64".to_string())), "ARM64");
    assert_eq!(arch(&Some("x86".to_string())), "x86");
    assert_eq!(arch(&Some("IA64".to_string())), "IA64");
}

#[test]
fn utc_edge_cases() {
    assert_eq!(parse_utc("  2000-01-01 00:00  "), Some(946_684_800));
    assert_eq!(parse_utc("1969-12-31 23:59:59"), None);
    assert_eq!(parse_utc("2000-13-01 00:00:00"), None);
    assert_eq!(parse_utc("2000-01-01"), None);
    assert_eq!(parse_utc("2000-01-01 00:00:xx"), None);
    assert_eq!(parse_utc("2000-01-01-07 01:00:00:99"), Some(946_688_400));
    assert!(!utc_sum_fits("2000-01-01 9223372036854775807:00:00"));
    assert!(utc_sum_fits("2000-01-01 00:00:00"));
    assert_eq!(wu_time(&None), None);
    assert_eq!(last_online_scan(&[]), None);
}

#[test]
fn empty_product_name_reads_as_windows() {
    assert_eq!(product_name(19045, &Some(String::new())), "Windows");
    assert_eq!(product_name(26100, &Some(String::new())), "Windows");
    assert_eq!(product_name(26100, &Some("Windows 10 Home".to_string())), "Windows 11 Home");
}
