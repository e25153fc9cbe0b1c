use win_sys::osinfo::parse_utc;
use win_sys::evtlog::{iso_to_unix, parse, unescape};

// The time conversion must match a known value.
#[test]
fn iso_time_converts() {
    assert_eq!(iso_to_unix("2026-08-03T20:26:39.1234567Z"), 1_785_788_799);
    assert_eq!(iso_to_unix("1970-01-01T00:00:00.0000000Z"), 0);
}

// The values must come out of the XML in the right order — the whole
// translation of a crash stands on their positions.
#[test]
fn data_values_keep_their_order() {
    let xml = "<Event><System><TimeCreated SystemTime='2026-08-03T20:26:39.0000000Z'/>\
               </System><EventData><Data>EADesktop.exe</Data><Data>13.743.0.6256</Data>\
               <Data>c0000005</Data></EventData></Event>";
    let ev = parse(xml);
    assert_eq!(ev.data, ["EADesktop.exe", "13.743.0.6256", "c0000005"]);
    assert_eq!(ev.ts, 1_785_788_799);
}

#[test]
fn iso_time_with_a_bad_field_is_zero() {
    assert_eq!(iso_to_unix("2026-0X-03T20:26:39Z"), 0);
    assert_eq!(iso_to_unix("short"), 0);
}

#[test]
fn event_without_time_or_data() {
    let ev = parse("<Event><System/></Event>");
    assert_eq!(ev.ts, 0);
    assert!(ev.data.is_empty());
}

#[test]
fn unclosed_data_stops_reading() {
    let ev = parse("<Data>a</Data><Data>b");
    assert_eq!(ev.data, ["a"]);
}

#[test]
fn entities_are_decoded() {
    assert_eq!(unescape("a &lt;b&gt; &quot;c&quot; &apos;d&apos; &amp;amp;"), "a <b> \"c\" 'd' &amp;");
    let ev = parse("<Data Name='x'>1 &amp; 2</Data>");
    assert_eq!(ev.data, ["1 & 2"]);
}

#[test]
fn event_log_and_registry_times_agree() {
    assert_eq!(Some(iso_to_unix("2024-02-29T23:59:59.0000000Z")), parse_utc("2024-02-29 23:59:59"));
    assert_eq!(Some(iso_to_unix("1970-01-01T00:00:00.0000000Z")), parse_utc("1970-01-01 00:00:00"));
    assert_eq!(Some(iso_to_unix("3000-12-31T99:99:99.0000000Z")), parse_utc("3000-12-31 99:99:99"));
}
