use lib::command::{parse_command, Command};

#[test]
fn accident_commands() {
    assert_eq!(parse_command("a"), Command::Accident);
    assert_eq!(parse_command("  Accident \n"), Command::Accident);
    assert_eq!(parse_command("\u{3000}A"), Command::Accident);
}

#[test]
fn manual_commands() {
    assert_eq!(parse_command("e"), Command::Manual);
    assert_eq!(parse_command("Event"), Command::Manual);
    assert_eq!(parse_command("manual\r"), Command::Manual);
}

#[test]
fn init_and_stop_commands() {
    assert_eq!(parse_command("i"), Command::Init);
    assert_eq!(parse_command("INIT"), Command::Init);
    assert_eq!(parse_command("f"), Command::Stop);
    assert_eq!(parse_command(" stop"), Command::Stop);
}

#[test]
fn empty_and_unknown_commands() {
    assert_eq!(parse_command(""), Command::Empty);
    assert_eq!(parse_command(" \t "), Command::Empty);
    assert_eq!(parse_command(" xyz "), Command::Unknown("XYZ".to_string()));
    assert_eq!(parse_command("accidents"), Command::Unknown("ACCIDENTS".to_string()));
    assert_eq!(parse_command("ä"), Command::Unknown("ä".to_string()));
}

#[test]
fn save_requests() {
    let a = parse_command("a").save_request().unwrap();
    assert_eq!((a.prefix, a.label, a.target), ("ACCIDENT", "事故", "event"));
    let m = parse_command("e").save_request().unwrap();
    assert_eq!((m.prefix, m.label, m.target), ("MANUAL", "手動", "manual"));
    assert!(parse_command("i").save_request().is_none());
    assert!(parse_command("zz").save_request().is_none());
}
