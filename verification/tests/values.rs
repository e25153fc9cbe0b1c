use win_sys::icon::{
    bgra_to_rgba, env_names, expand_env, icon_raw_path, icon_size_ok, pixel_bytes,
    split_icon_spec,
};
use win_sys::msi::{component_paths, guid_code, info_status_ok, info_value, is_file_path, ComponentPath};
use win_sys::msix::{format_version, package_from, packages, PackageRow};
use win_sys::net::{net_totals, IfRow, NetTotals};
use win_sys::recycle::{path_list, recycle_result};
use win_sys::registry::{binary_value, is_text_value, number_value, sz_value, value_data_text, value_name};
use win_sys::restore::{description_field, restore_result};
use win_sys::sysinfo::{
    core_times, cpu_clocks, filetime_u64, memory_status_mb, next_core_count, system_times,
    system_uptime_s, CoreTimes,
};
use win_sys::verinfo::{string_query, translation, version_value};
use win_sys::volumes::{disk_of_extents, drive_letters, listed_drive_type, volume_from};
use win_sys::Error;

fn wide(s: &str) -> Vec<u16> {
    s.encode_utf16().collect()
}

#[test]
fn error_message_names_call_and_code() {
    let e = Error::Win32 { call: "RegOpenKeyExW", code: 2 };
    assert_eq!(e.message(), "Win32 volání `RegOpenKeyExW` selhalo: 2");
    let e = Error::Win32 { call: "X", code: -5 };
    assert_eq!(e.message(), "Win32 volání `X` selhalo: -5");
}

#[test]
fn uptime_and_filetimes() {
    assert_eq!(system_uptime_s(12_345), 12);
    assert_eq!(filetime_u64(1, 5), 0x1_0000_0005);
    let t = system_times((0, 10), (2, 0), (0, u32::MAX));
    assert_eq!(t.idle, 10);
    assert_eq!(t.kernel, 2 * 0x1_0000_0000);
    assert_eq!(t.user, u32::MAX as u64);
}

#[test]
fn clocks_average_current_and_take_max() {
    assert_eq!(cpu_clocks(&[(3000, 3600), (2000, 4000), (1000, 3800)]), (2000, 4000));
    assert_eq!(cpu_clocks(&[]), (0, 0));
    assert_eq!(cpu_clocks(&[(7, 1), (8, 1)]), (7, 1));
}

#[test]
fn core_buffer_doubles_up_to_the_cap() {
    assert_eq!(next_core_count(8), 16);
    assert_eq!(next_core_count(1024), 2048);
    assert_eq!(next_core_count(1500), 2048);
}

#[test]
fn core_times_follow_the_returned_length() {
    let perf = [(10, 20, 30), (-1, 5, 6), (1, 1, 1)];
    let c = core_times(&perf, 96);
    assert_eq!(
        c,
        vec![
            CoreTimes { idle: 10, kernel: 20, user: 30 },
            CoreTimes { idle: 0, kernel: 5, user: 6 },
        ]
    );
    assert_eq!(core_times(&perf, 1000).len(), 3);
    assert!(core_times(&perf, 47).is_empty());
}

#[test]
fn memory_in_megabytes() {
    assert_eq!(memory_status_mb(16 * 1048576, 4 * 1048576), (12, 16));
}

#[test]
fn net_totals_skip_loopback_and_down_links() {
    let rows = [
        IfRow { if_type: 6, oper_status: 1, in_octets: 100, out_octets: 50 },
        IfRow { if_type: 24, oper_status: 1, in_octets: 1000, out_octets: 1000 },
        IfRow { if_type: 71, oper_status: 2, in_octets: 7, out_octets: 7 },
        IfRow { if_type: 71, oper_status: 1, in_octets: u64::MAX, out_octets: 1 },
    ];
    assert_eq!(net_totals(&rows), NetTotals { rx_bytes: u64::MAX, tx_bytes: 51 });
    assert_eq!(net_totals(&rows[..1]), NetTotals { rx_bytes: 100, tx_bytes: 50 });
    assert_eq!(net_totals(&[]), NetTotals { rx_bytes: 0, tx_bytes: 0 });
}

#[test]
fn drive_letters_from_mask() {
    assert_eq!(drive_letters(0b1100), vec!['C', 'D']);
    assert_eq!(drive_letters(1 | (1 << 25) | (1 << 26)), vec!['A', 'Z']);
    assert!(drive_letters(0).is_empty());
    assert!(listed_drive_type(3));
    assert!(listed_drive_type(2));
    assert!(!listed_drive_type(4));
}

#[test]
fn extents_and_volume_records() {
    let mut b = vec![0u8; 24];
    b[0] = 1;
    b[8] = 2;
    assert_eq!(disk_of_extents(&b), Some(2));
    b[0] = 0;
    assert_eq!(disk_of_extents(&b), None);
    let mut label = wide("Data");
    label.push(0);
    label.push(66);
    let v = volume_from('D', &label, &wide("NTFS"), 100, 40, 3, Some(1));
    assert_eq!(v.letter, 'D');
    assert_eq!(v.label, "Data");
    assert_eq!(v.fs, "NTFS");
    assert_eq!((v.total_bytes, v.free_bytes), (100, 40));
    assert!(v.fixed);
    assert_eq!(v.disk_index, Some(1));
    assert!(!volume_from('E', &[], &[], 0, 0, 2, None).fixed);
}

#[test]
fn icon_sizes_and_pixels() {
    assert!(icon_size_ok(32, 32));
    assert!(!icon_size_ok(0, 1));
    assert!(!icon_size_ok(513, 1));
    assert_eq!(pixel_bytes(16, 16), 1024);
}

#[test]
fn bgra_swaps_and_fills_alpha_when_missing() {
    // No alpha anywhere: alpha becomes opaque.
    assert_eq!(bgra_to_rgba(&[1, 2, 3, 0, 4, 5, 6, 0]), vec![3, 2, 1, 255, 6, 5, 4, 255]);
    // Real alpha is kept.
    assert_eq!(bgra_to_rgba(&[1, 2, 3, 9, 4, 5, 6, 0]), vec![3, 2, 1, 9, 6, 5, 4, 0]);
    // A trailing partial pixel is copied as is.
    assert_eq!(bgra_to_rgba(&[1, 2, 3, 0, 7, 8]), vec![3, 2, 1, 255, 7, 8]);
}

#[test]
fn icon_specs_split_at_the_last_comma() {
    assert_eq!(split_icon_spec("C:\\a,b\\app.exe, -3"), ("C:\\a,b\\app.exe".to_string(), -3));
    assert_eq!(split_icon_spec("C:\\app.exe"), ("C:\\app.exe".to_string(), 0));
    assert_eq!(split_icon_spec("C:\\app.exe,x"), ("C:\\app.exe,x".to_string(), 0));
    assert_eq!(icon_raw_path("  \"C:\\Program Files\\a.exe\" "), "C:\\Program Files\\a.exe");
}

#[test]
fn environment_names_are_expanded_in_order() {
    let p = "%SystemRoot%\\x\\%WINDIR%\\50%";
    assert_eq!(env_names(p), vec!["SystemRoot".to_string(), "WINDIR".to_string()]);
    let vals = vec![Some("C:\\Windows".to_string()), None];
    assert_eq!(expand_env(p, &vals), "C:\\Windows\\x\\%WINDIR%\\50%");
    assert_eq!(expand_env("plain", &[]), "plain");
    assert!(env_names("no vars").is_empty());
}

#[test]
fn registry_values_are_decoded() {
    let mut u = wide("  hodnota ");
    u.push(0);
    u.extend(wide("zbytek"));
    assert_eq!(sz_value(&u).as_deref(), Some("hodnota"));
    assert_eq!(sz_value(&wide("  ")), None);
    let b = [1u8, 0, 0, 0, 2, 0, 0, 0];
    assert_eq!(number_value(&b, 4), Some(1));
    assert_eq!(number_value(&b, 8), Some(0x2_0000_0001));
    assert_eq!(number_value(&b, 2), None);
    assert!(is_text_value(1));
    assert!(is_text_value(2));
    assert!(!is_text_value(4));
    let mut data = vec![0u8; 2048];
    data[0] = b'O';
    data[2] = b'K';
    data[6] = b'Z';
    assert_eq!(value_data_text(&data, 6), "OK");
    assert_eq!(value_data_text(&data, 2), "O");
    assert_eq!(value_name(&wide("NameXYZ"), 4), "Name");
    // Surrogate pairs decode to one character; lone surrogates to U+FFFD.
    assert_eq!(value_name(&[0xD83D, 0xDE00, 0x41], 3), "\u{1F600}A");
    assert_eq!(value_name(&[0xD800, 0x41], 2), "\u{FFFD}A");
    assert_eq!(value_name(&[0xDC00], 1), "\u{FFFD}");
    assert_eq!(binary_value(&[1, 2, 3, 4], 2), vec![1, 2]);
}

#[test]
fn version_resources() {
    assert_eq!(translation(None), (0x0409, 0x04B0));
    assert_eq!(translation(Some((0x0405, 0x04E2))), (0x0405, 0x04E2));
    assert_eq!(string_query(0x0409, 0x04B0, "ProductName"), "\\StringFileInfo\\040904b0\\ProductName");
    assert_eq!(string_query(0x0c0a, 0xfde9, "CompanyName"), "\\StringFileInfo\\0c0afde9\\CompanyName");
    let mut v = wide(" Contoso ");
    v.push(0);
    assert_eq!(version_value(&v, 10).as_deref(), Some("Contoso"));
    assert_eq!(version_value(&v, 1), None);
    assert_eq!(version_value(&wide("   "), 4), None);
}

#[test]
fn msi_values() {
    let g = wide("{12345678-1234-1234-1234-123456789012}tail");
    assert_eq!(guid_code(&g), "{12345678-1234-1234-1234-123456789012}");
    assert!(info_status_ok(0));
    assert!(info_status_ok(234));
    assert!(!info_status_ok(1605));
    assert_eq!(info_value(&wide(" 1.2.3 xx"), 7).as_deref(), Some("1.2.3"));
    assert_eq!(info_value(&wide("   "), 3), None);
    assert!(is_file_path("C:\\x"));
    assert!(is_file_path("d:/y"));
    assert!(!is_file_path("C:"));
    assert!(!is_file_path("02:\\Reg"));
    assert!(!is_file_path("\\\\server\\share"));
}

#[test]
fn msi_component_paths_group_by_product_in_first_seen_order() {
    let e = |p: &str, s: i32, path: &str| ComponentPath { product: p.to_string(), state: s, path: path.to_string() };
    let r = component_paths(&[
        e("{B}", 3, "C:\\b\\1.dll"),
        e("{A}", 3, "C:\\a\\1.dll"),
        e("{B}", 3, "C:\\b\\2.dll"),
        e("{A}", 2, "C:\\a\\absent.dll"),
        e("{A}", 3, "01:\\registry"),
    ]);
    assert_eq!(
        r,
        vec![
            ("{B}".to_string(), vec!["C:\\b\\1.dll".to_string(), "C:\\b\\2.dll".to_string()]),
            ("{A}".to_string(), vec!["C:\\a\\1.dll".to_string()]),
        ]
    );
    assert!(component_paths(&[]).is_empty());
}

#[test]
fn msix_rows_become_packages() {
    assert_eq!(format_version((1, 2, 30, 400)), "1.2.30.400");
    let row = PackageRow {
        is_framework: Some(false),
        is_resource: None,
        family: Some("Contoso.App_8wekyb3d8bbwe".to_string()),
        display_name: Some("ms-resource:AppName".to_string()),
        id_name: Some("Contoso.App".to_string()),
        version: Some((1, 0, 0, 0)),
        publisher: Some("Contoso".to_string()),
        installed_path: Some(String::new()),
    };
    let p = package_from(&row).expect("package");
    assert_eq!(p.family, "Contoso.App_8wekyb3d8bbwe");
    assert_eq!(p.display_name, "Contoso.App");
    assert_eq!(p.publisher.as_deref(), Some("Contoso"));
    assert_eq!(p.version.as_deref(), Some("1.0.0.0"));
    assert_eq!(p.install_path, None);

    let framework = PackageRow { is_framework: Some(true), ..row.clone() };
    assert!(package_from(&framework).is_none());
    let no_family = PackageRow { family: None, ..row.clone() };
    assert!(package_from(&no_family).is_none());
    let named = PackageRow {
        display_name: Some("Contoso".to_string()),
        installed_path: Some("C:\\Apps".to_string()),
        ..row.clone()
    };
    let p = package_from(&named).expect("package");
    assert_eq!(p.display_name, "Contoso");
    assert_eq!(p.install_path.as_deref(), Some("C:\\Apps"));
    let list = packages(&[row.clone(), framework, named]);
    assert_eq!(list.len(), 2);
    assert_eq!(list[1].display_name, "Contoso");
}

#[test]
fn restore_description_is_fixed_width() {
    let d = description_field("Před instalací");
    assert_eq!(d.len(), 257);
    assert_eq!(&d[..14], &wide("Před instalací")[..]);
    assert!(d[14..].iter().all(|&u| u == 0));
    let long: String = std::iter::repeat('a').take(300).collect();
    let d = description_field(&long);
    assert_eq!(d.len(), 257);
    assert_eq!(d[255], 'a' as u16);
    assert_eq!(d[256], 0);
    assert!(restore_result(1, 0).is_ok());
    assert_eq!(
        restore_result(0, 5),
        Err(Error::Win32 { call: "SRSetRestorePointW", code: 5 })
    );
}

#[test]
fn recycle_lists_are_double_terminated() {
    let l = path_list(&["C:\\a".to_string(), "D:\\b".to_string()]);
    let mut want = wide("C:\\a");
    want.push(0);
    want.extend(wide("D:\\b"));
    want.push(0);
    want.push(0);
    assert_eq!(l, want);
    assert_eq!(path_list(&[]), vec![0]);
    assert!(recycle_result(0, false).is_ok());
    assert_eq!(
        recycle_result(0x78, false),
        Err(Error::Win32 { call: "SHFileOperationW(FO_DELETE)", code: 0x78 })
    );
    assert_eq!(
        recycle_result(0, true),
        Err(Error::Win32 { call: "SHFileOperationW(přerušeno)", code: -1 })
    );
}

#[test]
fn msi_groups_hold_each_product_once() {
    let e = |p: &str, path: &str| ComponentPath { product: p.to_string(), state: 3, path: path.to_string() };
    let r = component_paths(&[
        e("{A}", "C:\\1"),
        e("{B}", "C:\\2"),
        e("{A}", "C:\\3"),
        e("{C}", "C:\\4"),
        e("{B}", "C:\\5"),
        e("{A}", "C:\\6"),
    ]);
    let codes: Vec<&str> = r.iter().map(|g| g.0.as_str()).collect();
    assert_eq!(codes, vec!["{A}", "{B}", "{C}"]);
    assert_eq!(r[0].1, vec!["C:\\1".to_string(), "C:\\3".to_string(), "C:\\6".to_string()]);
}
