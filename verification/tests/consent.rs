use win_sys::consent::{
    capabilities, consents, filetime_to_unix, read_entry, user_hives, ConsentEntry, ConsentLeaf,
    UserConsentHive, CAPABILITY_COUNT,
};

const FT_2024: u64 = 133_500_000_000_000_000;

fn hive(sid: &str, webcam: Vec<ConsentEntry>, microphone: Vec<ConsentEntry>) -> UserConsentHive {
    let mut caps: Vec<Vec<ConsentEntry>> = vec![Vec::new(); CAPABILITY_COUNT];
    caps[0] = webcam;
    caps[1] = microphone;
    UserConsentHive { sid: sid.to_string(), capabilities: caps }
}

fn entry(name: &str, value: Option<&str>, start: Option<u64>, stop: Option<u64>) -> ConsentEntry {
    ConsentEntry {
        name: name.to_string(),
        value: value.map(|v| v.to_string()),
        start,
        stop,
        children: Vec::new(),
    }
}

fn store() -> Vec<UserConsentHive> {
    let np = ConsentEntry {
        name: "NonPackaged".to_string(),
        value: Some("Allow".to_string()),
        start: None,
        stop: None,
        children: vec![ConsentLeaf {
            name: "C:#Program Files#Zoom#Zoom.exe".to_string(),
            value: None,
            start: Some(FT_2024),
            stop: Some(0),
        }],
    };
    vec![
        hive(
            "S-1-5-21-1-2-3-1001",
            vec![entry("Microsoft.WindowsCamera_8wekyb3d8bbwe", Some("Allow"), Some(FT_2024), Some(FT_2024 + 10_000_000)), np],
            vec![entry("App.Mic", Some("Deny"), None, None), entry("App.Odd", Some("Prompt"), None, None)],
        ),
        hive("S-1-5-21-1-2-3-1001_Classes", vec![entry("Ignored", Some("Allow"), None, None)], Vec::new()),
        hive("S-1-5-18", vec![entry("Ignored", Some("Allow"), None, None)], Vec::new()),
    ]
}

// A live consent store has many records; in_use needs a non-zero start
// and stop == 0 — never the other way round.
#[test]
fn consents_are_consistent() {
    let list = consents(&store());
    assert!(!list.is_empty(), "empty ConsentStore");
    for c in &list {
        if c.in_use {
            assert!(c.last_used.is_some(), "in_use without a start time: {c:?}");
        }
    }
    assert!(
        list.iter().any(|c| c.capability == "webcam" || c.capability == "microphone"),
        "no webcam/microphone record"
    );
}

#[test]
fn records_follow_the_store() {
    let list = consents(&store());
    assert_eq!(list.len(), 3);
    assert_eq!(list[0].app, "Microsoft.WindowsCamera_8wekyb3d8bbwe");
    assert!(list[0].packaged && list[0].allow && !list[0].in_use);
    assert_eq!(list[0].last_start, filetime_to_unix(FT_2024));
    assert_eq!(list[0].last_used, filetime_to_unix(FT_2024 + 10_000_000));
    assert_eq!(list[1].app, "C:\\Program Files\\Zoom\\Zoom.exe");
    assert!(!list[1].packaged && list[1].allow && list[1].in_use);
    assert_eq!(list[2].capability, "microphone");
    assert!(!list[2].allow);
}

#[test]
fn filetime_converts() {
    assert_eq!(filetime_to_unix(0), None);
    assert_eq!(filetime_to_unix(116_444_736_000_000_000), Some(0));
    assert_eq!(filetime_to_unix(133_500_000_000_000_000), Some(1_705_526_400));
}

#[test]
fn non_packaged_deny_is_inherited() {
    let c = read_entry(&None, Some(5), None, "webcam", "x.exe", false, Some(false)).unwrap();
    assert!(!c.allow);
    assert!(read_entry(&None, None, None, "webcam", "x", true, None).is_none());
}

#[test]
fn only_real_user_hives() {
    let keys: Vec<String> = ["S-1-5-18", "S-1-5-21-9-9-9-500", "S-1-5-21-9-9-9-500_Classes", ".DEFAULT"]
        .iter()
        .map(|s| s.to_string())
        .collect();
    assert_eq!(user_hives(&keys), vec!["S-1-5-21-9-9-9-500".to_string()]);
    assert_eq!(capabilities().len(), CAPABILITY_COUNT);
    assert_eq!(capabilities()[0], "webcam");
}

#[test]
fn record_times_agree_and_come_from_listed_capabilities() {
    let listed = capabilities();
    for c in consents(&store()) {
        assert!(listed.contains(&c.capability.as_str()));
        if c.in_use {
            assert_eq!(c.last_used, c.last_start);
        }
        if let Some(start) = c.last_start {
            assert!(c.last_used.unwrap() >= start);
        }
    }
    let r = read_entry(&Some("Allow".to_string()), Some(FT_2024), Some(FT_2024 + 50_000_000), "webcam", "A", true, None)
        .unwrap();
    assert!(!r.in_use);
    assert_eq!(r.last_used.unwrap() - r.last_start.unwrap(), 5);
    let r = read_entry(&None, Some(FT_2024 + 50_000_000), Some(FT_2024), "webcam", "A", false, Some(false)).unwrap();
    assert!(!r.allow);
    assert_eq!(r.last_used, r.last_start);
    assert!(read_entry(&Some("Prompt".to_string()), None, None, "webcam", "A", true, None).is_none());
}
