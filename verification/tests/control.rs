use linuxpal::control::{parse_command, reply_for, reply_is_error, ControlEvent};

#[test]
fn parses_argless_commands() {
    assert!(matches!(parse_command("summon"), Ok(ControlEvent::Summon)));
    assert!(matches!(parse_command("morning"), Ok(ControlEvent::Morning)));
    assert!(matches!(parse_command("quit"), Ok(ControlEvent::Quit)));
    assert!(matches!(parse_command("exit"), Ok(ControlEvent::Quit)));
}

#[test]
fn parses_commands_with_args() {
    match parse_command("ask how do I list ports?") {
        Ok(ControlEvent::Ask(q)) => assert_eq!(q, "how do I list ports?"),
        other => panic!("expected Ask, got {other:?}"),
    }
    match parse_command("say  hello world  ") {
        Ok(ControlEvent::Say(m)) => assert_eq!(m, "hello world"),
        other => panic!("expected Say, got {other:?}"),
    }
    match parse_command("STATE Jamming") {
        Ok(ControlEvent::SetState(s)) => assert_eq!(s, "jamming"),
        other => panic!("expected SetState, got {other:?}"),
    }
}

#[test]
fn rejects_bad_input() {
    assert!(parse_command("").is_err());
    assert!(parse_command("   ").is_err());
    assert!(parse_command("ask").is_err());
    assert!(parse_command("say").is_err());
    assert!(parse_command("bogus").is_err());
}

#[test]
fn error_messages_name_the_problem() {
    assert_eq!(parse_command(" ").unwrap_err(), "empty command");
    assert_eq!(parse_command("say   ").unwrap_err(), "say needs a message");
    assert_eq!(parse_command("ask").unwrap_err(), "ask needs a question");
    assert_eq!(parse_command("state").unwrap_err(), "state needs a name");
    assert_eq!(parse_command("Bogus thing").unwrap_err(), "unknown command 'bogus'");
}

#[test]
fn replies_report_ok_or_the_error() {
    assert_eq!(reply_for(&parse_command("summon")), "ok\n");
    assert_eq!(reply_for(&parse_command("bogus")), "err: unknown command 'bogus'\n");
    assert!(reply_is_error("err: unknown command 'bogus'\n"));
    assert!(!reply_is_error("ok\n"));
}
