use nicotine::commands::{parse_command, parse_request, request_line, Command, Request};
use nicotine::cycle_state::CycleOp;

fn command(words: &[&str]) -> Command {
    let mut args = vec!["nicotine".to_string()];
    args.extend(words.iter().map(|w| w.to_string()));
    parse_command(&args)
}

#[test]
fn commands_are_understood() {
    assert_eq!(command(&["start"]), Command::Start);
    assert_eq!(command(&["daemon"]), Command::Daemon);
    assert_eq!(command(&["stack"]), Command::Stack);
    assert_eq!(command(&["stop"]), Command::Stop);
    assert_eq!(command(&["init-config"]), Command::InitConfig);
    for word in ["cycle-forward", "forward", "f"] {
        assert_eq!(command(&[word]), Command::Cycle(CycleOp::Forward));
    }
    for word in ["cycle-backward", "backward", "b"] {
        assert_eq!(command(&[word]), Command::Cycle(CycleOp::Backward));
    }
}

#[test]
fn without_a_command_everything_starts() {
    assert_eq!(command(&[]), Command::Open);
    assert_eq!(command(&[""]), Command::Open);
    assert_eq!(parse_command(&Vec::new()), Command::Open);
}

#[test]
fn a_number_is_short_for_switch() {
    assert_eq!(command(&["2"]), Command::Cycle(CycleOp::Switch(2)));
    assert_eq!(command(&["switch", "2"]), Command::Cycle(CycleOp::Switch(2)));
    assert_eq!(command(&["+3"]), Command::Cycle(CycleOp::Switch(3)));
    assert_eq!(command(&["0"]), Command::Cycle(CycleOp::Switch(0)));
}

#[test]
fn anything_else_shows_the_usage() {
    for words in [&["help"][..], &["switch"], &["switch", "x"], &["-1"], &["START"], &["1x"]] {
        assert_eq!(command(words), Command::Help);
    }
}

#[test]
fn requests_are_understood_as_they_were_meant() {
    let cases = [
        (Request::Cycle(CycleOp::Forward), "forward"),
        (Request::Cycle(CycleOp::Backward), "backward"),
        (Request::Cycle(CycleOp::Switch(12)), "switch:12"),
        (Request::Quit, "quit"),
    ];
    for (request, line) in cases {
        assert_eq!(request_line(request), line);
        assert_eq!(parse_request(line), Some(request));
    }
    for line in ["", "Forward", "switch:", "switch:x", "switch 1", "quit "] {
        assert_eq!(parse_request(line), None);
    }
}
