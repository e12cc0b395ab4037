use rs1090::json_output::{flight_field, seen_pos_field, FLIGHT_WIDTH};
use rs1090::readsb::callsign;

#[test]
fn flight_padded_to_eight() {
    assert_eq!(flight_field(&Some("DLH1A".to_string())), Some("DLH1A   ".to_string()));
    assert_eq!(flight_field(&Some("AFR3360".to_string())), Some("AFR3360 ".to_string()));
    assert_eq!(flight_field(&Some("ABCDEFGHI".to_string())), Some("ABCDEFGHI".to_string()));
    assert_eq!(flight_field(&None), None);
    assert_eq!(FLIGHT_WIDTH, 8);
}

#[test]
fn seen_pos_only_with_position() {
    assert_eq!(seen_pos_field(Some(50_000_000), 1200), Some(1200));
    assert_eq!(seen_pos_field(None, 1200), None);
}

#[test]
fn readsb_callsign_trimmed() {
    // the flight field of readsb's aircraft.json carries trailing spaces
    assert_eq!(callsign(Some("DLH1A  ")), Some("DLH1A"));
    assert_eq!(callsign(Some("  KLM12 ")), Some("KLM12"));
    assert_eq!(callsign(Some("   ")), None);
    assert_eq!(callsign(Some("")), None);
    assert_eq!(callsign(None), None);
}

#[test]
fn readsb_callsign_from_json_entry() {
    let json = r#"{"now":1700000000,"aircraft":[
        {"hex":"3c6752","t":"A320","flight":"DLH1A  ","category":"A3","lat":50.0,"lon":8.0,"seen_pos":1.2,"seen":0.5}
    ]}"#;
    let parsed: serde_json::Value = serde_json::from_str(json).unwrap();
    let entry = &parsed["aircraft"][0];
    assert_eq!(entry["hex"].as_str(), Some("3c6752"));
    assert_eq!(callsign(entry["flight"].as_str()), Some("DLH1A"));
}
