use win_sys::devices::{bare_guid, date_text, devices, filetime_of, is_filetime_prop, Device, DeviceRow};
use win_sys::services::{auto_services, start_type_for, ServiceRow};
use win_sys::shortcut::{all_app_paths, app_path, app_path_key, clean_path, shell_path, AppPathEntry, AppPathProbe};
use win_sys::tasksched::{descend_into, split_task_path, startup_task, startup_tasks, task_payload, TaskRow};
use win_sys::users::{accounts_from, administrators, is_local_account, sid_kind, user_from_row, MemberRow, UserRow};

fn wide(s: &str) -> Vec<u16> {
    s.encode_utf16().collect()
}

fn row(name: &str, class: &str) -> DeviceRow {
    DeviceRow { friendly_name: name.to_string(), class: class.to_string(), ..Default::default() }
}

#[test]
fn devices_are_sorted_by_class_then_name() {
    let mut nameless = row("", "Zzz");
    nameless.description = String::new();
    let mut described = row("", "DiskDrive");
    described.description = "alpha disk".to_string();
    let mut broken = row("Beta Disk", "DiskDrive");
    broken.problem_code = Some(28);
    let rows = vec![
        row("Intel Core", "Processor"),
        broken,
        nameless,
        row("AMD Ryzen", "Processor"),
        described,
        row("Intel CPU", "Processor"),
    ];
    let d = devices(&rows);
    let names: Vec<&str> = d.iter().map(|x| x.name.as_str()).collect();
    assert_eq!(names, vec!["alpha disk", "Beta Disk", "AMD Ryzen", "Intel Core", "Intel CPU"]);
    assert!(d[1].has_problem());
    assert_eq!(d[1].problem_code, 28);
    assert!(!d[0].has_problem());
    assert!(devices(&[]).is_empty());
}

#[test]
fn device_equal_keys_keep_their_order() {
    let mut a = row("Same", "X");
    a.hardware_id = "first".to_string();
    let mut b = row("same", "X");
    b.hardware_id = "second".to_string();
    let d = devices(&[a, b]);
    assert_eq!(d[0].hardware_id, "first");
    assert_eq!(d[1].hardware_id, "second");
}

#[test]
fn device_property_helpers() {
    assert!(is_filetime_prop(0x10, 8));
    assert!(!is_filetime_prop(0x10, 4));
    assert!(!is_filetime_prop(0x12, 8));
    assert_eq!(filetime_of(&[1, 0, 0, 0, 0, 0, 0, 1, 9]), 0x0100_0000_0000_0001);
    assert_eq!(date_text(5, 3, 2024), "5. 3. 2024");
    assert_eq!(bare_guid("{4d36e968-e325-11ce-bfc1-08002be10318}"), "4d36e968-e325-11ce-bfc1-08002be10318");
    assert_eq!(bare_guid("{{x}}"), "x");
    let d = Device::default();
    assert!(!d.has_problem());
}

#[test]
fn services_keep_auto_and_manual_sorted_by_display_name() {
    let s = |name: &str, disp: Option<&str>, state: u32, start: Option<u64>| ServiceRow {
        name: name.to_string(),
        display_name: disp.map(|d| d.to_string()),
        current_state: state,
        start,
    };
    let rows = vec![
        s("wuauserv", Some("Windows Update"), 4, Some(3)),
        s("bits", Some("background Intelligent"), 1, Some(2)),
        s("disabled", Some("Disabled one"), 1, Some(4)),
        s("noconf", None, 4, None),
        s("", Some("No name"), 4, Some(2)),
        s("Spooler", None, 4, Some(2)),
    ];
    let r = auto_services(&rows);
    let names: Vec<&str> = r.iter().map(|x| x.display_name.as_str()).collect();
    assert_eq!(names, vec!["background Intelligent", "Spooler", "Windows Update"]);
    assert!(r[0].auto_start && !r[0].running);
    assert!(r[1].auto_start && r[1].running);
    assert_eq!(r[1].name, "Spooler");
    assert!(!r[2].auto_start && r[2].running);
    assert_eq!(start_type_for(true), 2);
    assert_eq!(start_type_for(false), 3);
}

#[test]
fn app_paths_are_looked_up_and_cleaned() {
    assert_eq!(
        app_path_key("chrome.exe"),
        "SOFTWARE\\Microsoft\\Windows\\CurrentVersion\\App Paths\\chrome.exe"
    );
    assert_eq!(clean_path("  \"C:\\Program Files\\x.exe\"  "), "C:\\Program Files\\x.exe");
    let probes = vec![
        AppPathProbe { value: None, is_file: false },
        AppPathProbe { value: Some("C:\\gone.exe".to_string()), is_file: false },
        AppPathProbe { value: Some(" \"C:\\x.exe\" ".to_string()), is_file: true },
        AppPathProbe { value: Some("C:\\y.exe".to_string()), is_file: true },
    ];
    assert_eq!(app_path(&probes).as_deref(), Some("C:\\x.exe"));
    assert_eq!(app_path(&probes[..2]), None);
    let entries = vec![
        AppPathEntry { subkey: "Chrome.EXE".to_string(), value: Some("\"C:\\c.exe\"".to_string()), is_file: true },
        AppPathEntry { subkey: "old.exe".to_string(), value: Some("C:\\o.exe".to_string()), is_file: false },
        AppPathEntry { subkey: "none.exe".to_string(), value: None, is_file: true },
    ];
    assert_eq!(all_app_paths(&entries), vec![("chrome.exe".to_string(), "C:\\c.exe".to_string())]);
    let mut u = wide("C:\\Users\\a\\Desktop");
    u.push(0);
    assert_eq!(shell_path(&u).as_deref(), Some("C:\\Users\\a\\Desktop"));
    assert_eq!(shell_path(&[0]), None);
}

fn task(path: &str, name: &str, kinds: Vec<i32>, enabled: Option<bool>, cmd: Option<&str>) -> TaskRow {
    TaskRow {
        path: Some(path.to_string()),
        name: Some(name.to_string()),
        enabled,
        trigger_kinds: kinds,
        command: cmd.map(|c| c.to_string()),
    }
}

#[test]
fn startup_tasks_need_a_boot_or_logon_trigger() {
    let rows = vec![
        task("\\Vendor\\Zeta", "Zeta", vec![1, 9], Some(false), Some("C:\\z.exe")),
        task("\\Daily", "Daily", vec![2], Some(true), Some("C:\\d.exe")),
        task("\\alpha", "alpha", vec![8], None, Some("")),
        TaskRow { path: None, name: Some("x".to_string()), enabled: None, trigger_kinds: vec![9], command: None },
    ];
    let t = startup_tasks(&rows);
    assert_eq!(t.len(), 2);
    assert_eq!(t[0].name, "alpha");
    assert!(t[0].enabled);
    assert_eq!(t[0].command, None);
    assert_eq!(t[1].name, "Zeta");
    assert!(!t[1].enabled);
    assert_eq!(t[1].command.as_deref(), Some("C:\\z.exe"));
    assert!(startup_task(&rows[1]).is_none());
    assert!(startup_task(&rows[3]).is_none());
}

#[test]
fn task_helpers() {
    assert!(descend_into(0));
    assert!(descend_into(3));
    assert!(!descend_into(4));
    assert_eq!(split_task_path("\\Microsoft\\Windows\\Defrag"), ("\\Microsoft\\Windows".to_string(), "Defrag".to_string()));
    assert_eq!(split_task_path("\\Top"), ("\\".to_string(), "Top".to_string()));
    assert_eq!(split_task_path("Bare"), ("\\".to_string(), "Bare".to_string()));
    assert_eq!(task_payload(&Some(" C:\\a.exe ".to_string())).as_deref(), Some(" C:\\a.exe "));
    assert_eq!(task_payload(&Some("   ".to_string())), None);
    assert_eq!(task_payload(&None), None);
}

#[test]
fn administrators_split_local_and_foreign() {
    let m = |sid: &str, name: &str, usage: i32| MemberRow { sid: sid.to_string(), name: name.to_string(), usage };
    let (sids, foreign) = administrators(&[
        m("S-1-5-21-1-2-3-500", "Administrator", 1),
        m("", "broken", 1),
        m("S-1-12-1-5-6", "AzureAD\\Admin", 1),
        m("S-1-5-32-544", "Domain Admins", 5),
    ]);
    assert_eq!(sids, vec!["S-1-5-21-1-2-3-500", "S-1-12-1-5-6", "S-1-5-32-544"]);
    assert_eq!(foreign.len(), 2);
    assert_eq!(foreign[0].name, "AzureAD\\Admin");
    assert_eq!(foreign[0].kind, "uživatel");
    assert_eq!(foreign[1].kind, "známá skupina");
    assert!(is_local_account("S-1-5-21-9"));
    assert!(!is_local_account("S-1-5-18"));
    assert_eq!(sid_kind(2), "skupina");
    assert_eq!(sid_kind(4), "alias");
    assert_eq!(sid_kind(9), "jiné");
}

fn user(name: &str, sid: &str, flags: u32) -> UserRow {
    UserRow { name: name.to_string(), sid: sid.to_string(), flags, last_logon: 100, logons: 3, ..Default::default() }
}

#[test]
fn users_list_admins_first_then_by_name() {
    let members = vec![MemberRow { sid: "S-1-5-21-1-500".to_string(), name: "boss".to_string(), usage: 1 }];
    let rows = vec![
        user("zed", "S-1-5-21-1-1001", 0x0002),
        user("", "S-1-5-21-1-1005", 0),
        user("amy", "S-1-5-21-1-1002", 0x0010 | 0x0020),
        user("boss", "s-1-5-21-1-500", 0),
    ];
    let a = accounts_from("Administrators".to_string(), &members, &rows);
    assert_eq!(a.admin_group, "Administrators");
    assert!(a.foreign_admins.is_empty());
    let names: Vec<&str> = a.users.iter().map(|u| u.name.as_str()).collect();
    assert_eq!(names, vec!["boss", "amy", "zed"]);
    assert!(a.users[0].admin);
    assert!(a.users[1].locked && a.users[1].password_not_required && !a.users[1].disabled);
    assert!(a.users[2].disabled);
    let u = user_from_row(&rows[0], &["S-1-5-21-1-1001".to_string()]);
    assert!(u.admin);
    assert_eq!((u.last_logon, u.logons), (100, 3));
}

#[test]
fn app_paths_take_the_first_existing_file() {
    let probes = vec![
        AppPathProbe { value: Some("C:\\hklm.exe".to_string()), is_file: true },
        AppPathProbe { value: Some("C:\\hkcu.exe".to_string()), is_file: true },
    ];
    assert_eq!(app_path(&probes).as_deref(), Some("C:\\hklm.exe"));
    let entries = vec![
        AppPathEntry { subkey: "A.EXE".to_string(), value: Some("C:\\a.exe".to_string()), is_file: true },
        AppPathEntry { subkey: "b.exe".to_string(), value: Some("C:\\b.exe".to_string()), is_file: false },
        AppPathEntry { subkey: "A.exe".to_string(), value: Some(" C:\\a2.exe ".to_string()), is_file: true },
    ];
    assert_eq!(
        all_app_paths(&entries),
        vec![("a.exe".to_string(), "C:\\a.exe".to_string()), ("a.exe".to_string(), "C:\\a2.exe".to_string())]
    );
}
