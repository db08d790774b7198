use vilog::dtc::{EntryDateTime, ListEntryDtc, State};
use vilog::influxdb::{
    authorization, checked_timestamp_to_datetime_string, encode, encode_entry,
    escape_field_string, escape_measurement, escape_tag, log_line, log_lines,
    timestamp_to_datetime_string, write_url, Tags,
};
use vilog::text::{decimal_string, push_decimal, str_eq};

fn record(id: i64, text: &str, timestamp: i64) -> ListEntryDtc {
    ListEntryDtc {
        state_type: "State".to_string(),
        state: State { id, text: text.to_string() },
        date_time: EntryDateTime { date_time: "2025-11-10 11:17:24".to_string(), timestamp },
        unknown: 1,
    }
}

/// What a reader of the line protocol makes of an escaped name or tag.
fn read_escaped(text: &str, special: &[char]) -> String {
    let chars: Vec<char> = text.chars().collect();
    let mut out = String::new();
    let mut i = 0;
    while i < chars.len() {
        if chars[i] == '\\' && i + 1 < chars.len() && special.contains(&chars[i + 1]) {
            out.push(chars[i + 1]);
            i += 2;
        } else {
            out.push(chars[i]);
            i += 1;
        }
    }
    out
}

/// What a reader of the line protocol makes of a quoted string field.
fn read_quoted(text: &str) -> Option<String> {
    let chars: Vec<char> = text.chars().collect();
    if chars.len() < 2 || chars[0] != '"' || chars[chars.len() - 1] != '"' {
        return None;
    }
    let inner: String = chars[1..chars.len() - 1].iter().collect();
    Some(read_escaped(&inner, &['"', '\\']))
}

#[test]
fn measurement_escapes_comma_and_space_only() {
    assert_eq!(escape_measurement("dtc"), "dtc");
    assert_eq!(escape_measurement(""), "");
    assert_eq!(escape_measurement("heat pump,dtc"), "heat\\ pump\\,dtc");
    assert_eq!(escape_measurement("a=b"), "a=b");
    assert_eq!(escape_measurement("a\\b\"c"), "a\\b\"c");
    assert_eq!(escape_measurement(", "), "\\,\\ ");
    assert_eq!(escape_measurement("Wärme pumpe"), "Wärme\\ pumpe");
}

#[test]
fn tag_escapes_comma_space_and_equals() {
    assert_eq!(escape_tag("680"), "680");
    assert_eq!(escape_tag(""), "");
    assert_eq!(escape_tag("a b,c=d"), "a\\ b\\,c\\=d");
    assert_eq!(escape_tag("a\\b\"c\n"), "a\\b\"c\n");
    assert_eq!(escape_tag("=="), "\\=\\=");
}

#[test]
fn field_string_is_quoted_and_escaped() {
    assert_eq!(escape_field_string(""), "\"\"");
    assert_eq!(escape_field_string("HeatPumpOff"), "\"HeatPumpOff\"");
    assert_eq!(escape_field_string("say \"hi\""), "\"say \\\"hi\\\"\"");
    assert_eq!(escape_field_string("a\\b"), "\"a\\\\b\"");
    assert_eq!(escape_field_string("a,b c=d"), "\"a,b c=d\"");
}

#[test]
fn field_string_turns_each_line_break_into_one_space() {
    assert_eq!(escape_field_string("a\nb"), "\"a b\"");
    assert_eq!(escape_field_string("a\rb"), "\"a b\"");
    assert_eq!(escape_field_string("a\r\nb"), "\"a  b\"");
    assert_eq!(escape_field_string("\n"), "\" \"");
}

#[test]
fn escaped_text_reads_back_exactly() {
    let samples = [
        "",
        "plain",
        "with, commas and spaces",
        "key=value",
        "say \"hi\"",
        "back\\slash",
        "trailing backslash\\",
        "\\,\\ \\=",
        "\\\\\"\"",
        "a\\",
        "ünïcödé, too = fine",
    ];
    for sample in samples {
        assert_eq!(read_escaped(&escape_measurement(sample), &[',', ' ']), sample);
        assert_eq!(read_escaped(&escape_tag(sample), &[',', ' ', '=']), sample);
        assert_eq!(read_quoted(&escape_field_string(sample)), Some(sample.to_string()));
    }
}

#[test]
fn field_string_with_a_line_break_reads_back_with_a_space() {
    assert_eq!(read_quoted(&escape_field_string("a\nb")), Some("a b".to_string()));
}

#[test]
fn decimal_string_writes_integers() {
    assert_eq!(decimal_string(0), "0");
    assert_eq!(decimal_string(7), "7");
    assert_eq!(decimal_string(10), "10");
    assert_eq!(decimal_string(129), "129");
    assert_eq!(decimal_string(-1), "-1");
    assert_eq!(decimal_string(-120), "-120");
    assert_eq!(decimal_string(1762769844000), "1762769844000");
    assert_eq!(decimal_string(i64::MAX), "9223372036854775807");
    assert_eq!(decimal_string(i64::MIN), "-9223372036854775808");
    for n in -1100..1100 {
        assert_eq!(decimal_string(n), n.to_string());
    }
}

#[test]
fn push_decimal_appends() {
    let mut out = String::from("id=");
    push_decimal(&mut out, 42);
    push_decimal(&mut out, -3);
    assert_eq!(out, "id=42-3");
}

#[test]
fn str_eq_compares_characters() {
    assert!(str_eq("", ""));
    assert!(str_eq("open3e/cmnd", "open3e/cmnd"));
    assert!(!str_eq("open3e/cmnd", "open3e/cmn"));
    assert!(!str_eq("open3e/cmn", "open3e/cmnd"));
    assert!(!str_eq("abc", "abd"));
    assert!(!str_eq("", "a"));
    assert!(str_eq("ä€", "ä€"));
    assert!(!str_eq("ä", "a"));
}

#[test]
fn encode_entry_writes_one_record() {
    let tags = Tags { system_id: "open3e", ecu_id: "680", severity: "debug" };
    let line = encode_entry(&record(129, "HeatPumpPostRun", 1762769844000), &tags, "dtc");
    assert_eq!(
        line,
        "dtc,systemid=open3e,ecuid=680,severity=debug textid=129i,text=\"HeatPumpPostRun\" 1762769844000\n"
    );
}

#[test]
fn encode_entry_escapes_each_part_by_its_own_rule() {
    let tags = Tags { system_id: "my system", ecu_id: "a=b", severity: "err,x" };
    let line = encode_entry(&record(-5, "a \"b\", c=d\nnext", -1), &tags, "my dtc,x=y");
    assert_eq!(
        line,
        "my\\ dtc\\,x=y,systemid=my\\ system,ecuid=a\\=b,severity=err\\,x textid=-5i,text=\"a \\\"b\\\", c=d next\" -1\n"
    );
}

#[test]
fn encode_writes_one_line_per_entry_in_order() {
    let tags = Tags { system_id: "s", ecu_id: "e", severity: "info" };
    let entries = vec![record(1, "one", 10), record(2, "two", 20)];
    assert_eq!(
        encode(&entries, &tags, "m"),
        "m,systemid=s,ecuid=e,severity=info textid=1i,text=\"one\" 10\nm,systemid=s,ecuid=e,severity=info textid=2i,text=\"two\" 20\n"
    );
}

#[test]
fn encode_of_no_entries_is_empty() {
    let tags = Tags { system_id: "s", ecu_id: "e", severity: "info" };
    assert_eq!(encode(&Vec::new(), &tags, "m"), "");
}

#[test]
fn log_line_has_time_identifiers_code_severity_and_text() {
    let tags = Tags { system_id: "open3e", ecu_id: "680", severity: "debug" };
    let entry = record(129, "HeatPumpPostRun", 1762769844000);
    assert_eq!(log_line(&entry, &tags), "2025-11-10 11:17:24 open3e 680[129]: debug HeatPumpPostRun");
    let lines = log_lines(&vec![entry, record(123, "HeatPumpOff", 1762769965000)], &tags);
    assert_eq!(
        lines,
        vec![
            "2025-11-10 11:17:24 open3e 680[129]: debug HeatPumpPostRun".to_string(),
            "2025-11-10 11:17:24 open3e 680[123]: debug HeatPumpOff".to_string(),
        ]
    );
}

#[test]
fn timestamp_is_written_as_iso_8601() {
    assert_eq!(timestamp_to_datetime_string(0), "1970-01-01T00:00:00+00:00");
    assert_eq!(timestamp_to_datetime_string(947638923004), "2000-01-12T01:02:03.004+00:00");
    assert_eq!(timestamp_to_datetime_string(1762769844000), "2025-11-10T10:17:24+00:00");
    assert_eq!(timestamp_to_datetime_string(-1), "1969-12-31T23:59:59.999+00:00");
}

#[test]
fn checked_timestamp_tells_when_there_is_no_date() {
    assert_eq!(
        checked_timestamp_to_datetime_string(1762769844000),
        Some("2025-11-10T10:17:24+00:00".to_string())
    );
    assert_eq!(checked_timestamp_to_datetime_string(i64::MAX), None);
    assert_eq!(checked_timestamp_to_datetime_string(i64::MIN), None);
}

#[test]
fn entry_gives_its_timestamp_as_iso_8601() {
    let entry = record(129, "HeatPumpPostRun", 1762769844000);
    assert_eq!(entry.get_iso8601_from_timestamp(), "2025-11-10T10:17:24+00:00");
    assert_eq!(
        entry.checked_iso8601_from_timestamp(),
        Some("2025-11-10T10:17:24+00:00".to_string())
    );
    assert_eq!(record(1, "x", i64::MAX).checked_iso8601_from_timestamp(), None);
}

#[test]
fn write_url_cuts_trailing_slashes() {
    assert_eq!(write_url("http://127.0.0.1:8086"), "http://127.0.0.1:8086/api/v2/write");
    assert_eq!(write_url("http://127.0.0.1:8086/"), "http://127.0.0.1:8086/api/v2/write");
    assert_eq!(write_url("http://host///"), "http://host/api/v2/write");
    assert_eq!(write_url("http://host/base/"), "http://host/base/api/v2/write");
    assert_eq!(write_url(""), "/api/v2/write");
    assert_eq!(write_url("///"), "/api/v2/write");
}

#[test]
fn authorization_is_there_for_a_token_only() {
    assert_eq!(authorization(""), None);
    assert_eq!(authorization("SECRET"), Some("Token SECRET".to_string()));
}
