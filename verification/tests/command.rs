use timesimulation::CommandPayload;

#[test]
fn raw_payload_formats_as_string() {
    let payload = CommandPayload::raw("launch");
    assert_eq!(payload.to_string(), "launch");
    assert_eq!(payload.as_str(), "launch");
}

#[test]
fn payloads_come_from_owned_and_borrowed_text() {
    let owned = CommandPayload::from("go".to_string());
    let borrowed = CommandPayload::from("go");
    assert_eq!(owned, borrowed);
    assert_eq!(owned.clone(), CommandPayload::Raw("go".to_string()));
    assert_eq!(CommandPayload::raw(String::from("go")).as_str(), "go");
}
