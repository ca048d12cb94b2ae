use tankvm::geom::Direction;
use tankvm::program::{Action, Command};

const OPCODES: [Command; 15] = [
    Command::LoadDirectA,
    Command::LoadDirectB,
    Command::LoadDirectAction,
    Command::Halt,
    Command::LogicNegateA,
    Command::Add,
    Command::SaveA,
    Command::LoadA,
    Command::LoadB,
    Command::SwapAB,
    Command::JumpA,
    Command::JumpBIfAPos,
    Command::Sub,
    Command::IncA,
    Command::DecA,
];

#[test]
fn opcodes_are_numbered_from_0_to_14() {
    for (i, c) in OPCODES.iter().enumerate() {
        assert_eq!(c.u8() as usize, i);
        assert_eq!(Command::from_u8(i as u8), Some(*c));
    }
}

#[test]
fn opcode_table_by_name() {
    assert_eq!(Command::LoadDirectA.u8(), 0);
    assert_eq!(Command::Halt.u8(), 3);
    assert_eq!(Command::SaveA.u8(), 6);
    assert_eq!(Command::SwapAB.u8(), 9);
    assert_eq!(Command::JumpBIfAPos.u8(), 11);
    assert_eq!(Command::DecA.u8(), 14);
    assert_eq!(Command::from_u8(12), Some(Command::Sub));
    assert_eq!(Command::from_u8(13), Some(Command::IncA));
}

#[test]
fn bytes_above_14_are_no_opcode() {
    for b in 15..=255u8 {
        assert_eq!(Command::from_u8(b), None);
    }
}

#[test]
fn action_codes() {
    assert_eq!(Action::Move.into_u8(), 1);
    assert_eq!(Action::Rotate(Direction::Up).into_u8(), 2);
    assert_eq!(Action::Rotate(Direction::Right).into_u8(), 3);
    assert_eq!(Action::Rotate(Direction::Down).into_u8(), 4);
    assert_eq!(Action::Rotate(Direction::Left).into_u8(), 5);
    assert_eq!(Action::Fire.into_u8(), 6);
}

#[test]
fn action_from_u8_decodes_1_to_6() {
    assert_eq!(Action::from_u8(1), Ok(Action::Move));
    assert_eq!(Action::from_u8(2), Ok(Action::Rotate(Direction::Up)));
    assert_eq!(Action::from_u8(3), Ok(Action::Rotate(Direction::Right)));
    assert_eq!(Action::from_u8(4), Ok(Action::Rotate(Direction::Down)));
    assert_eq!(Action::from_u8(5), Ok(Action::Rotate(Direction::Left)));
    assert_eq!(Action::from_u8(6), Ok(Action::Fire));
}

#[test]
fn action_from_u8_refuses_every_other_byte() {
    assert_eq!(Action::from_u8(0), Err(()));
    for b in 7..=255u8 {
        assert_eq!(Action::from_u8(b), Err(()));
    }
}

#[test]
fn action_codes_round_trip() {
    for b in 1..=6u8 {
        assert_eq!(Action::from_u8(b).unwrap().into_u8(), b);
    }
}

#[test]
fn codes_convert_into_bytes() {
    let fire: u8 = Action::Fire.into();
    assert_eq!(fire, 6);
    let turn: u8 = Action::Rotate(Direction::Left).into();
    assert_eq!(turn, 5);
    assert_eq!(u8::from(Action::Move), 1);
    let save: u8 = Command::SaveA.into();
    assert_eq!(save, 6);
    assert_eq!(u8::from(Command::DecA), 14);
    let left: u8 = (&Direction::Left).into();
    assert_eq!(left, 3);
    assert_eq!(u8::from(&Direction::Up), 0);
}
