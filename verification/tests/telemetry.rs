use telecom_client::telemetry::{service_name, TelemetryRecord};

fn record(call_id: &str) -> TelemetryRecord {
    TelemetryRecord {
        severity: "INFO".to_string(),
        event: "SDP_PARSED".to_string(),
        message: "Media \"target\" locked".to_string(),
        call_id: call_id.to_string(),
        attributes: vec![("target".to_string(), "1.1.1.1:5".to_string())],
    }
}

#[test]
fn a_record_is_one_document() {
    let text = record("uac-1f").payload_at("linux", "2024-01-01T00:00:00+00:00");
    assert_eq!(
        text,
        "{\"attributes\":{\"target\":\"1.1.1.1:5\"},\"event\":\"SDP_PARSED\",\
         \"message\":\"Media \\\"target\\\" locked\",\
         \"resource\":{\"host.name\":\"linux-device\",\"service.env\":\"production\",\
         \"service.name\":\"desktop-uac\",\"service.version\":\"1.0.0\"},\
         \"schema_v\":\"1.0.0\",\"severity\":\"INFO\",\"span_id\":null,\
         \"tenant_id\":\"sentiric_demo\",\"trace_id\":\"uac-1f\",\
         \"ts\":\"2024-01-01T00:00:00+00:00\"}"
    );
}

#[test]
fn a_record_of_no_call_has_no_trace() {
    let doc: serde_json::Value =
        serde_json::from_str(&record("").payload_at("android", "t")).unwrap();
    assert!(doc["trace_id"].is_null());
    assert_eq!(doc["resource"]["service.name"], "mobile-uac");
}

#[test]
fn of_two_attributes_with_one_name_the_later_stays() {
    let mut r = record("");
    r.attributes.push(("target".to_string(), "2.2.2.2:6".to_string()));
    let doc: serde_json::Value = serde_json::from_str(&r.payload_at("ios", "t")).unwrap();
    assert_eq!(doc["attributes"]["target"], "2.2.2.2:6");
    assert_eq!(doc["attributes"].as_object().unwrap().len(), 1);
}

#[test]
fn the_time_of_a_record_is_now() {
    let before = chrono::Utc::now();
    let doc: serde_json::Value = serde_json::from_str(&record("").payload("linux")).unwrap();
    let ts = chrono::DateTime::parse_from_rfc3339(doc["ts"].as_str().unwrap()).unwrap();
    assert!(before <= ts && ts <= chrono::Utc::now());
}

#[test]
fn phones_report_as_mobile() {
    assert_eq!(service_name("android"), "mobile-uac");
    assert_eq!(service_name("ios"), "mobile-uac");
    assert_eq!(service_name("windows"), "desktop-uac");
    assert_eq!(service_name(""), "desktop-uac");
}
