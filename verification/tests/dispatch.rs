use tycoon::command::{parse_command, Command};
use tycoon::game::GameState;

#[test]
fn dispatch_produce() {
    assert_eq!(parse_command("produce"), Command::Produce);
}

#[test]
fn dispatch_evaluate_and_short_form() {
    assert_eq!(parse_command("evaluate"), Command::Evaluate);
    assert_eq!(parse_command("eval"), Command::Evaluate);
}

#[test]
fn dispatch_assemble() {
    assert_eq!(parse_command("assemble"), Command::Assemble);
}

#[test]
fn dispatch_attack() {
    assert_eq!(parse_command("attack"), Command::Attack);
}

#[test]
fn dispatch_adjust() {
    assert_eq!(parse_command("adjust"), Command::Adjust);
}

#[test]
fn dispatch_quit_tokens() {
    assert_eq!(parse_command("quit"), Command::Quit);
    assert_eq!(parse_command("exit"), Command::Quit);
    assert_eq!(parse_command("shutdown"), Command::Quit);
}

#[test]
fn dispatch_case_and_whitespace_variations() {
    assert_eq!(parse_command("  Produce\n"), Command::Produce);
    assert_eq!(parse_command("PRODUCE"), Command::Produce);
    assert_eq!(parse_command("\tpRoDuCe\r\n"), Command::Produce);
    assert_eq!(parse_command(" EXIT "), Command::Quit);
    assert_eq!(parse_command("Eval"), Command::Evaluate);
}

#[test]
fn dispatch_unrecognized() {
    assert_eq!(parse_command("fly"), Command::Unrecognized);
    assert_eq!(parse_command(""), Command::Unrecognized);
    assert_eq!(parse_command("produce now"), Command::Unrecognized);
    assert_eq!(parse_command("qu it"), Command::Unrecognized);
}

#[test]
fn unrecognized_command_leaves_state_untouched() {
    let mut s = GameState::initial();
    s.titanium = 77;
    s.units = 3;
    let before = s;
    assert_eq!(parse_command("fly"), Command::Unrecognized);
    assert_eq!(s, before);
}
