use tycoon::game::{recognize_model, AdjustKind, CommandError, GameState};

#[test]
fn initial_state_values() {
    let s = GameState::initial();
    assert_eq!(s.titanium, 0);
    assert_eq!(s.cores, 1);
    assert_eq!(s.recycler, 1);
    assert_eq!(s.core_cost, 15);
    assert_eq!(s.recycler_cost, 15);
    assert_eq!(s.units, 0);
}

#[test]
fn evaluate_reports_and_mutates_nothing() {
    let mut s = GameState::initial();
    s.titanium = 12;
    s.cores = 2;
    s.recycler = 3;
    s.units = 4;
    let before = s;
    let r = s.evaluate();
    assert_eq!(r.titanium, 12);
    assert_eq!(r.cores, 2);
    assert_eq!(r.recycler, 3);
    assert_eq!(r.units, 4);
    assert_eq!(s, before);
}

#[test]
fn attack_is_a_no_op() {
    let mut s = GameState::initial();
    s.titanium = 9;
    s.units = 2;
    let before = s;
    s.attack();
    assert_eq!(s, before);
}

#[test]
fn produce_zero_seconds_changes_nothing() {
    let mut s = GameState::initial();
    let before = s;
    assert_eq!(s.produce_command("0"), Ok(0));
    assert_eq!(s, before);
}

#[test]
fn produce_scales_with_recycler_level() {
    let mut s = GameState::initial();
    s.recycler = 4;
    s.recycler_cost = 15 * 8;
    assert_eq!(s.produce_command("3"), Ok(3));
    assert_eq!(s.titanium, 12);
}

#[test]
fn produce_two_seconds_from_initial_state() {
    let mut s = GameState::initial();
    assert_eq!(s.produce_command("2"), Ok(2));
    assert_eq!(s.titanium, 2);
    assert_eq!(s.cores, 1);
    assert_eq!(s.units, 0);
}

#[test]
fn produce_rejects_bad_duration() {
    let mut s = GameState::initial();
    s.titanium = 5;
    let before = s;
    assert_eq!(s.produce_command("soon"), Err(CommandError::ParseError));
    assert_eq!(s, before);
    assert_eq!(s.produce_command(""), Err(CommandError::ParseError));
    assert_eq!(s, before);
}

#[test]
fn produce_tick_adds_one_recycler_level() {
    let mut s = GameState::initial();
    s.recycler = 6;
    s.recycler_cost = 15 * 32;
    s.produce_tick();
    assert_eq!(s.titanium, 6);
    s.produce_tick();
    assert_eq!(s.titanium, 12);
}

#[test]
fn adjust_cores_upgrade() {
    let mut s = GameState::initial();
    s.titanium = 20;
    assert_eq!(s.adjust_command("cores"), Ok(AdjustKind::Cores));
    assert_eq!(s.titanium, 5);
    assert_eq!(s.cores, 2);
    assert_eq!(s.core_cost, 30);
    assert_eq!(s.recycler, 1);
    assert_eq!(s.recycler_cost, 15);
}

#[test]
fn adjust_recycler_upgrade() {
    let mut s = GameState::initial();
    s.titanium = 16;
    assert_eq!(s.adjust_command("recycler"), Ok(AdjustKind::Recycler));
    assert_eq!(s.titanium, 1);
    assert_eq!(s.recycler, 2);
    assert_eq!(s.recycler_cost, 30);
    assert_eq!(s.cores, 1);
    assert_eq!(s.core_cost, 15);
}

#[test]
fn adjust_prices_double_with_each_upgrade() {
    let mut s = GameState::initial();
    s.titanium = 200;
    assert_eq!(s.adjust_command("cores"), Ok(AdjustKind::Cores));
    assert_eq!(s.adjust_command("cores"), Ok(AdjustKind::Cores));
    assert_eq!(s.adjust_command("cores"), Ok(AdjustKind::Cores));
    assert_eq!(s.cores, 4);
    assert_eq!(s.core_cost, 120);
    assert_eq!(s.titanium, 200 - 15 - 30 - 60);
}

#[test]
fn adjust_rejects_unaffordable_upgrade() {
    let mut s = GameState::initial();
    s.titanium = 14;
    let before = s;
    assert_eq!(
        s.adjust_command("cores"),
        Err(CommandError::UnrecognizedAdjustment)
    );
    assert_eq!(s, before);
}

#[test]
fn adjust_rejects_unknown_token() {
    let mut s = GameState::initial();
    s.titanium = 100;
    let before = s;
    assert_eq!(
        s.adjust_command("lasers"),
        Err(CommandError::UnrecognizedAdjustment)
    );
    assert_eq!(s, before);
}

#[test]
fn adjust_token_is_normalized() {
    let mut s = GameState::initial();
    s.titanium = 15;
    assert_eq!(s.adjust_command(" CORES \n"), Ok(AdjustKind::Cores));
    assert_eq!(s.cores, 2);
}

#[test]
fn model_recognition_is_normalized() {
    assert!(recognize_model("t800"));
    assert!(recognize_model(" T800\n"));
    assert!(!recognize_model("t1000"));
    assert!(!recognize_model("t 800"));
    assert!(!recognize_model(""));
}

#[test]
fn assemble_underfunded_order_still_debits() {
    let mut s = GameState::initial();
    s.titanium = 3;
    assert!(s.short_of_unit_cost());
    assert_eq!(s.assemble_command("t800", "1"), Ok(1));
    assert_eq!(s.titanium, -2);
    assert_eq!(s.units, 1);
}

#[test]
fn assemble_funded_order() {
    let mut s = GameState::initial();
    s.titanium = 25;
    assert!(!s.short_of_unit_cost());
    assert_eq!(s.assemble_command("T800", "3"), Ok(3));
    assert_eq!(s.titanium, 10);
    assert_eq!(s.units, 3);
}

#[test]
fn assemble_rejects_unknown_model() {
    let mut s = GameState::initial();
    s.titanium = 25;
    let before = s;
    assert_eq!(
        s.assemble_command("t1000", "3"),
        Err(CommandError::UnrecognizedModel)
    );
    assert_eq!(s, before);
}

#[test]
fn assemble_rejects_bad_count() {
    let mut s = GameState::initial();
    s.titanium = 25;
    let before = s;
    assert_eq!(
        s.assemble_command("t800", "many"),
        Err(CommandError::InvalidCount)
    );
    assert_eq!(s, before);
}

#[test]
fn assemble_zero_units() {
    let mut s = GameState::initial();
    s.titanium = 7;
    assert_eq!(s.assemble_command("t800", "0"), Ok(0));
    assert_eq!(s.titanium, 7);
    assert_eq!(s.units, 0);
}

#[test]
fn unit_power_is_never_touched() {
    let mut s = GameState::initial();
    s.titanium = 100;
    let power = s.unit_power;
    assert_eq!(s.produce_command("2"), Ok(2));
    s.attack();
    assert_eq!(s.adjust_command("cores"), Ok(AdjustKind::Cores));
    assert_eq!(s.assemble_command("t800", "2"), Ok(2));
    assert_eq!(s.unit_power, power);
}
