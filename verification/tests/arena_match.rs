use tankvm::arena::{UploadError, VirtualMachine};
use tankvm::geom::{Coords, Direction};
use tankvm::machine::RuntimeErr;
use tankvm::program::{Action, Command};
use tankvm::report::WinStatus;
use tankvm::tank::{Tank, MAX_HP};

fn roster(names: &[&str]) -> VirtualMachine {
    VirtualMachine::new(names.iter().map(|n| n.to_string()).collect())
}

fn always(action: Action) -> Vec<u8> {
    vec![Command::LoadDirectAction.u8(), action.into_u8(), Command::Halt.u8(), 0]
}

/// Moves in the first turn and turns by nothing in every later one.
fn step_once_then_wait() -> Vec<u8> {
    vec![
        Command::LoadA.u8(), 255,
        Command::LoadDirectB.u8(), 14,
        Command::JumpBIfAPos.u8(), 0,
        Command::IncA.u8(), 0,
        Command::SaveA.u8(), 255,
        Command::LoadDirectAction.u8(), Action::Move.into_u8(),
        Command::Halt.u8(), 0,
        Command::LoadDirectAction.u8(), Action::Rotate(Direction::Up).into_u8(),
        Command::Halt.u8(), 0,
    ]
}

fn reads_out_of_range() -> Vec<u8> {
    vec![Command::LoadDirectA.u8(), 255, Command::JumpA.u8(), 0]
}

fn tank(x: i64, y: i64, dir: Direction, hp: i64) -> Tank {
    Tank { pos: Coords { x, y }, dir, hp }
}

#[test]
fn fresh_tank_stands_at_the_origin_facing_right() {
    let t = Tank::new();
    assert_eq!(t, tank(0, 0, Direction::Right, 100));
    assert_eq!(MAX_HP, 100);
    assert!(t.alive());
}

#[test]
fn tank_is_alive_while_health_is_positive() {
    assert!(tank(0, 0, Direction::Up, 1).alive());
    assert!(!tank(0, 0, Direction::Up, 0).alive());
    assert!(!tank(0, 0, Direction::Up, -10).alive());
}

#[test]
fn tank_steps_along_its_facing() {
    let mut t = tank(2, 2, Direction::Down, 50);
    t.step();
    assert_eq!(t, tank(2, 1, Direction::Down, 50));
    let mut t = tank(2, 2, Direction::Left, 50);
    t.step();
    assert_eq!(t, tank(1, 2, Direction::Left, 50));
}

#[test]
fn upload_for_an_unknown_name_is_not_found() {
    let mut vm = roster(&["a", "b"]);
    assert_eq!(vm.input(always(Action::Move), "c".to_string()), Err(UploadError::NotFound));
    assert_eq!(vm.input(vec![0u8; 300], "c".to_string()), Err(UploadError::NotFound));
    let mut none = roster(&[]);
    assert_eq!(none.input(always(Action::Move), "a".to_string()), Err(UploadError::NotFound));
}

#[test]
fn upload_that_is_too_long_is_refused_and_the_bank_stays() {
    let mut vm = roster(&["a"]);
    assert_eq!(vm.input(always(Action::Fire), "a".to_string()), Ok(()));
    assert_eq!(vm.decide_action(0), Ok(Action::Fire));
    assert_eq!(vm.input(vec![3u8; 257], "a".to_string()), Err(UploadError::TooLarge));
    assert_eq!(vm.decide_action(0), Ok(Action::Fire));
}

#[test]
fn upload_of_full_size_is_taken() {
    let mut vm = roster(&["a"]);
    let mut program = vec![0u8; 256];
    program[0] = Command::LoadDirectAction.u8();
    program[1] = 1;
    program[2] = Command::Halt.u8();
    assert_eq!(vm.input(program, "a".to_string()), Ok(()));
    assert_eq!(vm.decide_action(0), Ok(Action::Move));
}

#[test]
fn upload_goes_to_the_named_participant_only() {
    let mut vm = roster(&["a", "b"]);
    assert_eq!(vm.input(always(Action::Fire), "b".to_string()), Ok(()));
    assert_eq!(vm.decide_action(0), Err(RuntimeErr::OutOfTime));
    assert_eq!(vm.decide_action(1), Ok(Action::Fire));
}

#[test]
fn upload_goes_to_the_first_of_two_equal_names() {
    let mut vm = roster(&["a", "a"]);
    assert_eq!(vm.input(always(Action::Move), "a".to_string()), Ok(()));
    assert_eq!(vm.decide_action(0), Ok(Action::Move));
    assert_eq!(vm.decide_action(1), Err(RuntimeErr::OutOfTime));
}

#[test]
fn second_upload_keeps_the_bytes_behind_it() {
    let mut vm = roster(&["a"]);
    assert_eq!(vm.input(vec![10, 0, 2, 6, 3, 0], "a".to_string()), Ok(()));
    assert_eq!(vm.input(vec![0, 0], "a".to_string()), Ok(()));
    assert_eq!(vm.decide_action(0), Ok(Action::Fire));
}

#[test]
fn fresh_arena_is_ready() {
    assert!(roster(&["a", "b", "c"]).ready());
    assert!(roster(&[]).ready());
}

#[test]
fn lone_mover_moves_one_unit_per_turn() {
    let mut vm = roster(&["solo"]);
    assert_eq!(vm.input(always(Action::Move), "solo".to_string()), Ok(()));
    assert_eq!(vm.decide_action(0), Ok(Action::Move));
    assert!(vm.ready());
    let report = vm.run();
    assert_eq!(report.replay.len(), 10);
    assert_eq!(report.replay[0].players, vec![tank(0, 0, Direction::Right, 100)]);
    assert_eq!(report.replay[1].players, vec![tank(1, 0, Direction::Right, 100)]);
    for t in 0..10 {
        assert_eq!(report.replay[t].players, vec![tank(t as i64, 0, Direction::Right, 100)]);
    }
    assert_eq!(report.player_names, vec!["solo".to_string()]);
    assert_eq!(report.match_results, vec![WinStatus::Draw]);
}

#[test]
fn second_match_goes_on_from_where_the_first_ended() {
    let mut vm = roster(&["solo"]);
    assert_eq!(vm.input(always(Action::Move), "solo".to_string()), Ok(()));
    vm.run();
    assert!(vm.ready());
    let report = vm.run();
    assert_eq!(report.replay[0].players, vec![tank(10, 0, Direction::Right, 100)]);
    assert_eq!(report.replay[9].players, vec![tank(19, 0, Direction::Right, 100)]);
}

#[test]
fn rotation_turns_the_facing_each_turn() {
    let mut vm = roster(&["spin"]);
    assert_eq!(vm.input(always(Action::Rotate(Direction::Right)), "spin".to_string()), Ok(()));
    let report = vm.run();
    let want = [Direction::Right, Direction::Down, Direction::Left, Direction::Up];
    for t in 0..10 {
        assert_eq!(report.replay[t].players, vec![tank(0, 0, want[t % 4], 100)]);
    }
}

#[test]
fn rotate_by_up_leaves_the_facing() {
    let mut vm = roster(&["still"]);
    assert_eq!(vm.input(always(Action::Rotate(Direction::Up)), "still".to_string()), Ok(()));
    let report = vm.run();
    for t in 0..10 {
        assert_eq!(report.replay[t].players, vec![tank(0, 0, Direction::Right, 100)]);
    }
}

#[test]
fn shooter_wears_down_the_target_ahead_and_wins() {
    let mut vm = roster(&["shooter", "target"]);
    assert_eq!(vm.input(always(Action::Fire), "shooter".to_string()), Ok(()));
    assert_eq!(vm.input(step_once_then_wait(), "target".to_string()), Ok(()));
    let report = vm.run();
    assert_eq!(report.replay.len(), 10);
    assert_eq!(
        report.replay[0].players,
        vec![tank(0, 0, Direction::Right, 100), tank(0, 0, Direction::Right, 100)]
    );
    for t in 1..10 {
        assert_eq!(
            report.replay[t].players,
            vec![
                tank(0, 0, Direction::Right, 100),
                tank(1, 0, Direction::Right, 100 - 10 * t as i64)
            ]
        );
    }
    assert_eq!(report.player_names, vec!["shooter".to_string(), "target".to_string()]);
    assert_eq!(report.match_results, vec![WinStatus::Won, WinStatus::Lost]);
}

#[test]
fn shots_are_fired_from_where_the_moves_ended() {
    let mut vm = roster(&["front", "back"]);
    assert_eq!(vm.input(always(Action::Move), "front".to_string()), Ok(()));
    assert_eq!(vm.input(always(Action::Fire), "back".to_string()), Ok(()));
    let report = vm.run();
    for t in 0..10 {
        assert_eq!(
            report.replay[t].players,
            vec![
                tank(t as i64, 0, Direction::Right, 100 - 10 * t as i64),
                tank(0, 0, Direction::Right, 100)
            ]
        );
    }
    assert_eq!(report.match_results, vec![WinStatus::Lost, WinStatus::Won]);
}

#[test]
fn a_shot_hits_every_tank_ahead() {
    let mut vm = roster(&["gun", "near", "far"]);
    assert_eq!(vm.input(always(Action::Fire), "gun".to_string()), Ok(()));
    assert_eq!(vm.input(step_once_then_wait(), "near".to_string()), Ok(()));
    assert_eq!(vm.input(always(Action::Move), "far".to_string()), Ok(()));
    let report = vm.run();
    assert_eq!(
        report.replay[3].players,
        vec![
            tank(0, 0, Direction::Right, 100),
            tank(1, 0, Direction::Right, 70),
            tank(3, 0, Direction::Right, 70)
        ]
    );
    assert_eq!(report.match_results, vec![WinStatus::Won, WinStatus::Lost, WinStatus::Lost]);
}

#[test]
fn tanks_on_one_spot_do_not_hit_each_other() {
    let mut vm = roster(&["a", "b"]);
    assert_eq!(vm.input(always(Action::Fire), "a".to_string()), Ok(()));
    assert_eq!(vm.input(always(Action::Fire), "b".to_string()), Ok(()));
    let report = vm.run();
    for t in 0..10 {
        assert_eq!(
            report.replay[t].players,
            vec![tank(0, 0, Direction::Right, 100), tank(0, 0, Direction::Right, 100)]
        );
    }
    assert_eq!(report.match_results, vec![WinStatus::Draw, WinStatus::Draw]);
}

#[test]
fn failed_program_eliminates_its_participant_for_good() {
    let mut vm = roster(&["broken", "mover"]);
    assert_eq!(vm.input(reads_out_of_range(), "broken".to_string()), Ok(()));
    assert_eq!(vm.input(always(Action::Move), "mover".to_string()), Ok(()));
    assert_eq!(vm.decide_action(0), Err(RuntimeErr::PtrOutOfRange));
    let report = vm.run();
    assert_eq!(report.replay.len(), 10);
    assert_eq!(report.replay[0].players[0], tank(0, 0, Direction::Right, 100));
    for t in 1..10 {
        assert_eq!(report.replay[t].players[0], tank(0, 0, Direction::Right, 0));
        assert_eq!(report.replay[t].players[1], tank(t as i64, 0, Direction::Right, 100));
    }
    assert_eq!(report.match_results, vec![WinStatus::Lost, WinStatus::Won]);
}

#[test]
fn eliminated_participant_fires_no_more() {
    let mut vm = roster(&["gun", "target"]);
    let mut fire_twice_then_fail = vec![
        Command::LoadA.u8(), 255,
        Command::IncA.u8(), 0,
        Command::SaveA.u8(), 255,
        Command::LoadDirectB.u8(), 2,
        Command::Sub.u8(), 0,
        Command::LoadDirectB.u8(), 18,
        Command::JumpBIfAPos.u8(), 0,
        Command::LoadDirectAction.u8(), Action::Fire.into_u8(),
        Command::Halt.u8(), 0,
    ];
    fire_twice_then_fail.extend_from_slice(&[77, 0]);
    assert_eq!(vm.input(fire_twice_then_fail, "gun".to_string()), Ok(()));
    assert_eq!(vm.input(step_once_then_wait(), "target".to_string()), Ok(()));
    let report = vm.run();
    let hp_of_target = [100, 90, 80, 80, 80, 80, 80, 80, 80, 80];
    let hp_of_gun = [100, 100, 100, 0, 0, 0, 0, 0, 0, 0];
    for t in 0..10 {
        assert_eq!(report.replay[t].players[0].hp, hp_of_gun[t]);
        assert_eq!(report.replay[t].players[1].hp, hp_of_target[t]);
    }
    assert_eq!(report.match_results, vec![WinStatus::Lost, WinStatus::Won]);
}

#[test]
fn everyone_dead_in_one_turn_is_a_draw() {
    let mut vm = roster(&["a", "b", "c"]);
    assert_eq!(vm.input(reads_out_of_range(), "a".to_string()), Ok(()));
    assert_eq!(vm.input(vec![99, 0], "b".to_string()), Ok(()));
    let report = vm.run();
    for p in 0..3 {
        assert_eq!(report.replay[0].players[p].hp, 100);
        assert_eq!(report.replay[1].players[p].hp, 0);
    }
    assert_eq!(report.match_results, vec![WinStatus::Draw, WinStatus::Draw, WinStatus::Draw]);
}

#[test]
fn nobody_dead_is_a_draw() {
    let mut vm = roster(&["a", "b", "c"]);
    assert_eq!(vm.input(always(Action::Move), "a".to_string()), Ok(()));
    assert_eq!(vm.input(always(Action::Rotate(Direction::Left)), "b".to_string()), Ok(()));
    assert_eq!(vm.input(always(Action::Rotate(Direction::Down)), "c".to_string()), Ok(()));
    let report = vm.run();
    assert_eq!(report.match_results, vec![WinStatus::Draw, WinStatus::Draw, WinStatus::Draw]);
}

#[test]
fn several_survivors_draw_and_the_dead_lose() {
    let mut vm = roster(&["a", "b", "c"]);
    assert_eq!(vm.input(always(Action::Move), "a".to_string()), Ok(()));
    assert_eq!(vm.input(vec![3, 0], "b".to_string()), Ok(()));
    assert_eq!(vm.input(always(Action::Rotate(Direction::Up)), "c".to_string()), Ok(()));
    assert_eq!(vm.decide_action(1), Err(RuntimeErr::InvalidAction));
    let report = vm.run();
    assert_eq!(report.match_results, vec![WinStatus::Draw, WinStatus::Lost, WinStatus::Draw]);
    assert_eq!(
        report.player_names,
        vec!["a".to_string(), "b".to_string(), "c".to_string()]
    );
}

#[test]
fn empty_roster_plays_ten_empty_turns() {
    let mut vm = roster(&[]);
    let report = vm.run();
    assert_eq!(report.replay.len(), 10);
    for shot in &report.replay {
        assert!(shot.players.is_empty());
    }
    assert!(report.match_results.is_empty());
    assert!(report.player_names.is_empty());
}

#[test]
fn participant_without_a_program_runs_out_of_time_and_is_out() {
    let mut vm = roster(&["idle", "busy"]);
    assert_eq!(vm.input(always(Action::Move), "busy".to_string()), Ok(()));
    assert_eq!(vm.decide_action(0), Err(RuntimeErr::OutOfTime));
    let report = vm.run();
    assert_eq!(report.replay[1].players[0], tank(0, 0, Direction::Right, 0));
    assert_eq!(report.match_results, vec![WinStatus::Lost, WinStatus::Won]);
}

#[test]
fn a_dead_tank_ahead_is_still_hit_and_set_back_to_zero_when_it_fails_again() {
    let mut vm = roster(&["gun", "broken"]);
    let turn_back_step_turn_fire = vec![
        Command::LoadA.u8(), 255,
        Command::IncA.u8(), 0,
        Command::SaveA.u8(), 255,
        Command::DecA.u8(), 0,
        Command::LoadDirectB.u8(), 16,
        Command::JumpBIfAPos.u8(), 0,
        Command::LoadDirectAction.u8(), Action::Rotate(Direction::Down).into_u8(),
        Command::Halt.u8(), 0,
        Command::DecA.u8(), 0,
        Command::LoadDirectB.u8(), 26,
        Command::JumpBIfAPos.u8(), 0,
        Command::LoadDirectAction.u8(), Action::Move.into_u8(),
        Command::Halt.u8(), 0,
        Command::DecA.u8(), 0,
        Command::LoadDirectB.u8(), 36,
        Command::JumpBIfAPos.u8(), 0,
        Command::LoadDirectAction.u8(), Action::Rotate(Direction::Down).into_u8(),
        Command::Halt.u8(), 0,
        Command::LoadDirectAction.u8(), Action::Fire.into_u8(),
        Command::Halt.u8(), 0,
    ];
    assert_eq!(vm.input(turn_back_step_turn_fire, "gun".to_string()), Ok(()));
    assert_eq!(vm.input(vec![99, 0], "broken".to_string()), Ok(()));
    let report = vm.run();
    let gun = [
        tank(0, 0, Direction::Right, 100),
        tank(0, 0, Direction::Left, 100),
        tank(-1, 0, Direction::Left, 100),
        tank(-1, 0, Direction::Right, 100),
    ];
    let hp_of_broken = [100, 0, 0, 0, -10, -10, -10, -10, -10, -10];
    for t in 0..10 {
        assert_eq!(report.replay[t].players[0], gun[if t < 3 { t } else { 3 }]);
        assert_eq!(report.replay[t].players[1], tank(0, 0, Direction::Right, hp_of_broken[t]));
    }
    assert_eq!(report.match_results, vec![WinStatus::Won, WinStatus::Lost]);
}
