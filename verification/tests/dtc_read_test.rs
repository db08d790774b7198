use vilog::decode::decode;
use vilog::dtc::{list_entries_new_not_in_old, ResponseDtc};

const STATUS_HISTORY_1: &str = r#"{
  "Count": 10,
  "ListEntries": [
    {"State": {"ID": 118, "Text": "FourThreeWayValveInternalBufferPosition"},
     "DateTime": {"DateTime": "2025-11-10 10:12:29", "Timestamp": 1762765949000}, "Unknown": 1},
    {"State": {"ID": 117, "Text": "FourThreeWayValveDomesticHotWaterPosition"},
     "DateTime": {"DateTime": "2025-11-10 09:58:03", "Timestamp": 1762765083000}, "Unknown": 1},
    {"State": {"ID": 124, "Text": "HeatPumpPreRun"},
     "DateTime": {"DateTime": "2025-11-10 09:57:41", "Timestamp": 1762765061000}, "Unknown": 1},
    {"State": {"ID": 125, "Text": "HeatPumpHeating"},
     "DateTime": {"DateTime": "2025-11-10 09:57:11", "Timestamp": 1762765031000}, "Unknown": 1},
    {"State": {"ID": 134, "Text": "FourThreeWayValveIdlePosition"},
     "DateTime": {"DateTime": "2025-11-10 08:40:17", "Timestamp": 1762760417000}, "Unknown": 1},
    {"State": {"ID": 123, "Text": "HeatPumpOff"},
     "DateTime": {"DateTime": "2025-11-10 08:40:14", "Timestamp": 1762760414000}, "Unknown": 1},
    {"State": {"ID": 129, "Text": "HeatPumpPostRun"},
     "DateTime": {"DateTime": "2025-11-10 08:38:13", "Timestamp": 1762760293000}, "Unknown": 1},
    {"State": {"ID": 118, "Text": "FourThreeWayValveInternalBufferPosition"},
     "DateTime": {"DateTime": "2025-11-10 07:31:02", "Timestamp": 1762756262000}, "Unknown": 1},
    {"State": {"ID": 125, "Text": "HeatPumpHeating"},
     "DateTime": {"DateTime": "2025-11-10 07:16:48", "Timestamp": 1762755408000}, "Unknown": 1},
    {"State": {"ID": 124, "Text": "HeatPumpPreRun"},
     "DateTime": {"DateTime": "2025-11-10 07:16:18", "Timestamp": 1762755378000}, "Unknown": 1}
  ]
}"#;

const STATUS_HISTORY_2: &str = r#"{
  "Count": 10,
  "ListEntries": [
    {"State": {"ID": 129, "Text": "HeatPumpPostRun"},
     "DateTime": {"DateTime": "2025-11-10 11:17:24", "Timestamp": 1762769844000}, "Unknown": 1},
    {"State": {"ID": 118, "Text": "FourThreeWayValveInternalBufferPosition"},
     "DateTime": {"DateTime": "2025-11-10 10:12:29", "Timestamp": 1762765949000}, "Unknown": 1},
    {"State": {"ID": 117, "Text": "FourThreeWayValveDomesticHotWaterPosition"},
     "DateTime": {"DateTime": "2025-11-10 09:58:03", "Timestamp": 1762765083000}, "Unknown": 1},
    {"State": {"ID": 124, "Text": "HeatPumpPreRun"},
     "DateTime": {"DateTime": "2025-11-10 09:57:41", "Timestamp": 1762765061000}, "Unknown": 1},
    {"State": {"ID": 125, "Text": "HeatPumpHeating"},
     "DateTime": {"DateTime": "2025-11-10 09:57:11", "Timestamp": 1762765031000}, "Unknown": 1},
    {"State": {"ID": 134, "Text": "FourThreeWayValveIdlePosition"},
     "DateTime": {"DateTime": "2025-11-10 08:40:17", "Timestamp": 1762760417000}, "Unknown": 1},
    {"State": {"ID": 123, "Text": "HeatPumpOff"},
     "DateTime": {"DateTime": "2025-11-10 08:40:14", "Timestamp": 1762760414000}, "Unknown": 1},
    {"State": {"ID": 129, "Text": "HeatPumpPostRun"},
     "DateTime": {"DateTime": "2025-11-10 08:38:13", "Timestamp": 1762760293000}, "Unknown": 1},
    {"State": {"ID": 118, "Text": "FourThreeWayValveInternalBufferPosition"},
     "DateTime": {"DateTime": "2025-11-10 07:31:02", "Timestamp": 1762756262000}, "Unknown": 1},
    {"State": {"ID": 125, "Text": "HeatPumpHeating"},
     "DateTime": {"DateTime": "2025-11-10 07:16:48", "Timestamp": 1762755408000}, "Unknown": 1}
  ]
}"#;

const STATUS_HISTORY_3: &str = r#"{
  "Count": 10,
  "ListEntries": [
    {"State": {"ID": 134, "Text": "FourThreeWayValveIdlePosition"},
     "DateTime": {"DateTime": "2025-11-10 11:19:28", "Timestamp": 1762769968000}, "Unknown": 1},
    {"State": {"ID": 123, "Text": "HeatPumpOff"},
     "DateTime": {"DateTime": "2025-11-10 11:19:25", "Timestamp": 1762769965000}, "Unknown": 1},
    {"State": {"ID": 129, "Text": "HeatPumpPostRun"},
     "DateTime": {"DateTime": "2025-11-10 11:17:24", "Timestamp": 1762769844000}, "Unknown": 1},
    {"State": {"ID": 118, "Text": "FourThreeWayValveInternalBufferPosition"},
     "DateTime": {"DateTime": "2025-11-10 10:12:29", "Timestamp": 1762765949000}, "Unknown": 1},
    {"State": {"ID": 117, "Text": "FourThreeWayValveDomesticHotWaterPosition"},
     "DateTime": {"DateTime": "2025-11-10 09:58:03", "Timestamp": 1762765083000}, "Unknown": 1},
    {"State": {"ID": 124, "Text": "HeatPumpPreRun"},
     "DateTime": {"DateTime": "2025-11-10 09:57:41", "Timestamp": 1762765061000}, "Unknown": 1},
    {"State": {"ID": 125, "Text": "HeatPumpHeating"},
     "DateTime": {"DateTime": "2025-11-10 09:57:11", "Timestamp": 1762765031000}, "Unknown": 1},
    {"State": {"ID": 134, "Text": "FourThreeWayValveIdlePosition"},
     "DateTime": {"DateTime": "2025-11-10 08:40:17", "Timestamp": 1762760417000}, "Unknown": 1},
    {"State": {"ID": 123, "Text": "HeatPumpOff"},
     "DateTime": {"DateTime": "2025-11-10 08:40:14", "Timestamp": 1762760414000}, "Unknown": 1},
    {"State": {"ID": 129, "Text": "HeatPumpPostRun"},
     "DateTime": {"DateTime": "2025-11-10 08:38:13", "Timestamp": 1762760293000}, "Unknown": 1}
  ]
}"#;

const ERROR_HISTORY_1: &str = r#"{"Count": 0, "GrandTotal": 0, "ListEntries": []}"#;

#[test]
fn read_258_1_json_into_response_dtc() {
    let parsed: ResponseDtc = decode(STATUS_HISTORY_1).expect("failed to decode the message");

    assert_eq!(parsed.count, 10, "Count should be 10");
    assert_eq!(
        parsed.list_entries.len(),
        10,
        "ListEntries length should be 10"
    );

    let first = &parsed.list_entries[0];
    assert_eq!(first.state.id, 118);
    assert_eq!(first.state.text, "FourThreeWayValveInternalBufferPosition");
    assert_eq!(first.unknown, 1);
    assert_eq!(first.date_time.date_time, "2025-11-10 10:12:29");
    assert_eq!(first.date_time.timestamp, 1762765949000);
}

#[test]
fn read_266_1_json_into_response_dtc() {
    let parsed: ResponseDtc = decode(ERROR_HISTORY_1).expect("failed to decode the message");

    assert_eq!(parsed.count, 0, "Count should be 0");
    assert_eq!(parsed.grand_total, Some(0), "GrandTotal should be Some(0)");
    assert!(
        parsed.list_entries.is_empty(),
        "ListEntries should be empty"
    );
}

#[test]
fn diff_new_entries_between_258_1_and_258_2() {
    let old_message: ResponseDtc = decode(STATUS_HISTORY_1).expect("failed to decode the old message");
    let new_message: ResponseDtc = decode(STATUS_HISTORY_2).expect("failed to decode the new message");

    let diff = list_entries_new_not_in_old(&old_message, &new_message);

    assert_eq!(diff.len(), 1, "Expected exactly one new entry");

    let entry = &diff[0];
    assert_eq!(entry.state.id, 129);
    assert_eq!(entry.state.text, "HeatPumpPostRun");
    assert_eq!(entry.unknown, 1);
    assert_eq!(entry.date_time.date_time, "2025-11-10 11:17:24");
    assert_eq!(entry.date_time.timestamp, 1762769844000);
}

#[test]
fn diff_new_entries_between_258_1_and_258_3() {
    let old_message: ResponseDtc = decode(STATUS_HISTORY_1).expect("failed to decode the old message");
    let new_message: ResponseDtc = decode(STATUS_HISTORY_3).expect("failed to decode the new message");

    let diff = list_entries_new_not_in_old(&old_message, &new_message);

    assert_eq!(diff.len(), 3, "Expected exactly three new entries");

    let e0 = &diff[0];
    assert_eq!(e0.state.id, 134);
    assert_eq!(e0.state.text, "FourThreeWayValveIdlePosition");
    assert_eq!(e0.unknown, 1);
    assert_eq!(e0.date_time.date_time, "2025-11-10 11:19:28");
    assert_eq!(e0.date_time.timestamp, 1762769968000);

    let e1 = &diff[1];
    assert_eq!(e1.state.id, 123);
    assert_eq!(e1.state.text, "HeatPumpOff");
    assert_eq!(e1.unknown, 1);
    assert_eq!(e1.date_time.date_time, "2025-11-10 11:19:25");
    assert_eq!(e1.date_time.timestamp, 1762769965000);

    let e2 = &diff[2];
    assert_eq!(e2.state.id, 129);
    assert_eq!(e2.state.text, "HeatPumpPostRun");
    assert_eq!(e2.unknown, 1);
    assert_eq!(e2.date_time.date_time, "2025-11-10 11:17:24");
    assert_eq!(e2.date_time.timestamp, 1762769844000);
}
