//! The instruction set: opcodes, their byte encoding, and the actions that a
//! program can decide on.

use vstd::prelude::*;
use crate::geom::Direction;

verus! {

/// A program as uploaded: pairs of opcode byte and operand byte.
pub type Program = Vec<u8>;

/// What a participant commits to for one turn.
#[derive(Clone, Copy, Debug, PartialEq, Eq, Structural)]
pub enum Action {
    Move,
    Rotate(Direction),
    Fire,
}

impl Action {
    /// The byte that stands for an action in the action register: `Move` is
    /// 1, `Rotate(d)` is 2 plus the ordinal of `d`, `Fire` is 6.
    pub open spec fn code(self) -> int {
        match self {
            Action::Move => 1,
            Action::Rotate(d) => 2 + d.ordinal(),
            Action::Fire => 6,
        }
    }

    /// The action that a byte of the action register stands for, if any.
    pub open spec fn decode(bt: u8) -> Option<Action> {
        if bt == 1 {
            Some(Action::Move)
        } else if 2 <= bt <= 5 {
            Some(Action::Rotate(Direction::of_ordinal(bt - 2)))
        } else if bt == 6 {
            Some(Action::Fire)
        } else {
            None
        }
    }

    /// Decodes the action register; bytes outside 1..=6 stand for no action.
    pub fn from_u8(bt: u8) -> (r: Result<Action, ()>)
        ensures
            r is Ok <==> 1 <= bt <= 6,
            match Action::decode(bt) {
                Some(a) => r == Ok::<Action, ()>(a),
                None => r == Err::<Action, ()>(()),
            },
    {
        match bt {
            1 => Ok(Action::Move),
            2..=5 => Ok(Action::Rotate(Direction::from_u8(bt - 2))),
            6 => Ok(Action::Fire),
            _ => Err(()),
        }
    }

    /// Encodes the action as its byte.
    pub fn into_u8(self) -> (bt: u8)
        ensures
            bt == self.code(),
            1 <= bt <= 6,
    {
        match self {
            Action::Move => 1,
            Action::Rotate(dir) => dir.into_u8() + 2,
            Action::Fire => 6,
        }
    }

    /// Decoding inverts encoding, and every byte that decodes is the code of
    /// what it decodes to.
    pub proof fn lemma_code_roundtrip(self, bt: u8)
        ensures
            1 <= self.code() <= 6,
            Action::decode(self.code() as u8) == Some(self),
            Action::decode(bt) == Some(self) ==> self.code() == bt,
            Action::decode(bt) is Some <==> 1 <= bt <= 6,
    {
    }
}

impl From<Action> for u8 {
    /// The byte that stands for the action.
    fn from(action: Action) -> (bt: u8) {
        action.into_u8()
    }
}

impl vstd::std_specs::convert::FromSpecImpl<Action> for u8 {
    open spec fn obeys_from_spec() -> bool {
        true
    }

    open spec fn from_spec(action: Action) -> u8 {
        action.code() as u8
    }
}

/// The opcodes of the register machine. Each instruction is an opcode byte
/// followed by one operand byte.
#[derive(Clone, Copy, Debug, PartialEq, Eq, Structural)]
pub enum Command {
    /// Loads the operand into A.
    LoadDirectA,
    /// Loads the operand into B.
    LoadDirectB,
    /// Loads the operand into the action register.
    LoadDirectAction,
    /// Stops the program.
    Halt,
    /// Turns 0 in A into 1 and anything else into 0.
    LogicNegateA,
    /// Adds B to A, wrapping.
    Add,
    /// Saves A into the memory cell at the operand.
    SaveA,
    /// Loads the memory cell at the operand into A.
    LoadA,
    /// Loads the memory cell at the operand into B.
    LoadB,
    /// Exchanges A and B.
    SwapAB,
    /// Sets the instruction pointer to A.
    JumpA,
    /// Sets the instruction pointer to B if A is positive.
    JumpBIfAPos,
    /// Subtracts B from A, stopping at 0.
    Sub,
    /// Increments A, stopping at 255.
    IncA,
    /// Decrements A, stopping at 0.
    DecA,
}

impl Command {
    /// The byte that encodes an opcode: 0 for `LoadDirectA` up to 14 for `DecA`.
    pub open spec fn code(self) -> u8 {
        match self {
            Command::LoadDirectA => 0,
            Command::LoadDirectB => 1,
            Command::LoadDirectAction => 2,
            Command::Halt => 3,
            Command::LogicNegateA => 4,
            Command::Add => 5,
            Command::SaveA => 6,
            Command::LoadA => 7,
            Command::LoadB => 8,
            Command::SwapAB => 9,
            Command::JumpA => 10,
            Command::JumpBIfAPos => 11,
            Command::Sub => 12,
            Command::IncA => 13,
            Command::DecA => 14,
        }
    }

    /// The opcode that a byte encodes, if any.
    pub open spec fn decode(bt: u8) -> Option<Command> {
        if bt == 0 {
            Some(Command::LoadDirectA)
        } else if bt == 1 {
            Some(Command::LoadDirectB)
        } else if bt == 2 {
            Some(Command::LoadDirectAction)
        } else if bt == 3 {
            Some(Command::Halt)
        } else if bt == 4 {
            Some(Command::LogicNegateA)
        } else if bt == 5 {
            Some(Command::Add)
        } else if bt == 6 {
            Some(Command::SaveA)
        } else if bt == 7 {
            Some(Command::LoadA)
        } else if bt == 8 {
            Some(Command::LoadB)
        } else if bt == 9 {
            Some(Command::SwapAB)
        } else if bt == 10 {
            Some(Command::JumpA)
        } else if bt == 11 {
            Some(Command::JumpBIfAPos)
        } else if bt == 12 {
            Some(Command::Sub)
        } else if bt == 13 {
            Some(Command::IncA)
        } else if bt == 14 {
            Some(Command::DecA)
        } else {
            None
        }
    }

    /// Whether executing the opcode reads or writes the memory bank at its operand.
    pub open spec fn touches_memory(self) -> bool {
        self == Command::SaveA || self == Command::LoadA || self == Command::LoadB
    }

    /// Decodes an opcode byte; bytes above 14 encode nothing.
    pub fn from_u8(bt: u8) -> (r: Option<Command>)
        ensures
            r == Command::decode(bt),
            r is Some <==> bt <= 14,
    {
        match bt {
            0 => Some(Command::LoadDirectA),
            1 => Some(Command::LoadDirectB),
            2 => Some(Command::LoadDirectAction),
            3 => Some(Command::Halt),
            4 => Some(Command::LogicNegateA),
            5 => Some(Command::Add),
            6 => Some(Command::SaveA),
            7 => Some(Command::LoadA),
            8 => Some(Command::LoadB),
            9 => Some(Command::SwapAB),
            10 => Some(Command::JumpA),
            11 => Some(Command::JumpBIfAPos),
            12 => Some(Command::Sub),
            13 => Some(Command::IncA),
            14 => Some(Command::DecA),
            _ => None,
        }
    }

    /// Encodes the opcode as its byte.
    pub fn u8(self: &Self) -> (bt: u8)
        ensures
            bt == self.code(),
    {
        match self {
            Command::LoadDirectA => 0,
            Command::LoadDirectB => 1,
            Command::LoadDirectAction => 2,
            Command::Halt => 3,
            Command::LogicNegateA => 4,
            Command::Add => 5,
            Command::SaveA => 6,
            Command::LoadA => 7,
            Command::LoadB => 8,
            Command::SwapAB => 9,
            Command::JumpA => 10,
            Command::JumpBIfAPos => 11,
            Command::Sub => 12,
            Command::IncA => 13,
            Command::DecA => 14,
        }
    }

    /// Decoding inverts encoding, and every byte that decodes is the code of
    /// what it decodes to.
    pub proof fn lemma_code_roundtrip(self, bt: u8)
        ensures
            self.code() <= 14,
            Command::decode(self.code()) == Some(self),
            Command::decode(bt) == Some(self) ==> self.code() == bt,
            Command::decode(bt) is Some <==> bt <= 14,
    {
    }
}

impl From<Command> for u8 {
    /// The byte that encodes the opcode.
    fn from(command: Command) -> (bt: u8) {
        command.u8()
    }
}

impl vstd::std_specs::convert::FromSpecImpl<Command> for u8 {
    open spec fn obeys_from_spec() -> bool {
        true
    }

    open spec fn from_spec(command: Command) -> u8 {
        command.code()
    }
}

} // verus!
