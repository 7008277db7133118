use cherrydoor_command::Heartbeat;
use cherrydoor_command::Status;
use cherrydoor_command::StatusMap;

fn all_healthy(m: &StatusMap) -> bool {
    m.controller == Status::Healthy
        && m.lock == Status::Healthy
        && m.rfid == Status::Healthy
        && m.led == Status::Healthy
        && m.speaker == Status::Healthy
}

#[test]
fn new_is_all_ok_with_no_card() {
    let hb = Heartbeat::new();
    assert!(hb.all_ok());
    assert!(all_healthy(&hb.status));
    assert_eq!(hb.code, None);
}

#[test]
fn parse_no_card() {
    let hb = Heartbeat::from_heartbeat("0;0;\n".to_string()).unwrap();
    assert_eq!(hb.code, None);
    assert!(all_healthy(&hb.status));
    assert!(hb.all_ok());
}

#[test]
fn parse_valid_card() {
    let hb = Heartbeat::from_heartbeat("04214556;0;\n".to_string()).unwrap();
    assert_eq!(hb.code, Some("04214556".to_string()));
    assert!(all_healthy(&hb.status));
    assert!(hb.all_ok());
}

#[test]
fn parse_all_zero_card_is_a_card() {
    // Only the literal "0" means no card; eight zeros are a real code.
    let hb = Heartbeat::from_heartbeat("00000000;0;\n".to_string()).unwrap();
    assert_eq!(hb.code, Some("00000000".to_string()));
}

#[test]
fn parse_short_card_fails() {
    assert!(Heartbeat::from_heartbeat("0231;0;\n".to_string()).is_err());
}

#[test]
fn parse_long_card_fails() {
    assert!(Heartbeat::from_heartbeat("123456789;0;\n".to_string()).is_err());
}

#[test]
fn parse_empty_card_fails() {
    assert!(Heartbeat::from_heartbeat(";0;\n".to_string()).is_err());
}

#[test]
fn parse_without_semicolon_fails() {
    assert!(Heartbeat::from_heartbeat("anything".to_string()).is_err());
}

#[test]
fn parse_empty_line_fails() {
    assert!(Heartbeat::from_heartbeat("".to_string()).is_err());
}

#[test]
fn parse_minimal_line() {
    // One semicolon is enough: the reserved second field may be empty.
    let hb = Heartbeat::from_heartbeat("0;".to_string()).unwrap();
    assert_eq!(hb.code, None);
    assert!(hb.all_ok());
}

#[test]
fn connection_broken_degrades_statuses() {
    let hb = Heartbeat::from_heartbeat("04214556;0;\n".to_string()).unwrap();
    let code = hb.code.clone();
    let timestamp = hb.timestamp;
    let broken = hb.set_connection_broken();
    assert_eq!(
        broken.status.controller,
        Status::Failed("Serial connection broken".to_string())
    );
    assert_eq!(broken.status.lock, Status::Unknown);
    assert_eq!(broken.status.rfid, Status::Unknown);
    assert_eq!(broken.status.led, Status::Unknown);
    assert_eq!(broken.status.speaker, Status::Unknown);
    assert_eq!(broken.code, code);
    assert_eq!(broken.timestamp, timestamp);
    assert!(!broken.all_ok());
}

#[test]
fn connection_timeout_degrades_statuses() {
    let hb = Heartbeat::new();
    let timestamp = hb.timestamp;
    let timed_out = hb.set_connection_timeout();
    assert_eq!(
        timed_out.status.controller,
        Status::Failed("Serial connection timeout".to_string())
    );
    assert_eq!(timed_out.status.lock, Status::Unknown);
    assert_eq!(timed_out.status.speaker, Status::Unknown);
    assert_eq!(timed_out.code, None);
    assert_eq!(timed_out.timestamp, timestamp);
    assert!(!timed_out.all_ok());
}

#[test]
fn invalid_heartbeat_degrades_statuses() {
    let hb = Heartbeat::new();
    let invalid = hb.set_invalid_heartbeat();
    assert_eq!(
        invalid.status.controller,
        Status::Failed("Invalid heartbeat received".to_string())
    );
    assert_eq!(invalid.status.lock, Status::Unknown);
    assert_eq!(invalid.status.rfid, Status::Unknown);
    assert_eq!(invalid.status.led, Status::Unknown);
    assert_eq!(invalid.status.speaker, Status::Unknown);
    assert!(!invalid.all_ok());
}

#[test]
fn all_ok_requires_every_status_healthy() {
    let mut hb = Heartbeat::new();
    assert!(hb.all_ok());
    hb.status.led = Status::Unknown;
    assert!(!hb.all_ok());
    hb.status.led = Status::Healthy;
    assert!(hb.all_ok());
    hb.status.rfid = Status::Failed("reader jam".to_string());
    assert!(!hb.all_ok());
}
