//! The register machine: it runs the program in one memory bank until the
//! program halts, fails, or runs out of steps, and decodes the action that
//! the program decided on.

use vstd::prelude::*;
use crate::memory::{Memory, MEMSIZE};
use crate::program::{Action, Command};

verus! {

/// The most instructions that one decision may execute.
pub const MAX_STEPS: u64 = 256;

/// Why a program failed to decide.
#[derive(Clone, Copy, Debug, PartialEq, Eq, Structural)]
pub enum RuntimeErr {
    /// An instruction fetch or a memory access lay outside the bank.
    PtrOutOfRange,
    /// The program halted with a byte in the action register that stands
    /// for no action.
    InvalidAction,
    /// The byte at the instruction pointer encodes no opcode.
    UnknownCommand(u8),
    /// The program did not halt within `MAX_STEPS` instructions.
    OutOfTime,
}

/// The registers of the machine. They start at zero for every decision.
#[derive(Clone, Copy, Debug, PartialEq, Eq, Structural)]
pub struct Registers {
    pub a: u8,
    pub b: u8,
    pub instruction: u8,
    pub action: u8,
}

impl Registers {
    /// All registers zero.
    pub open spec fn zero() -> Registers {
        Registers { a: 0, b: 0, instruction: 0, action: 0 }
    }

    /// The registers with the instruction pointer moved past one
    /// instruction. The pointer is a byte and wraps.
    pub open spec fn advanced(self) -> Registers {
        Registers { instruction: ((self.instruction + 2) % 256) as u8, ..self }
    }

    /// The registers after executing `cmd` with operand `data` over `bank`,
    /// for an instruction that does not fault.
    pub open spec fn executed(self, cmd: Command, data: u8, bank: Seq<u8>) -> Registers {
        match cmd {
            Command::LoadDirectA => Registers { a: data, ..self },
            Command::LoadDirectB => Registers { b: data, ..self },
            Command::LoadDirectAction => Registers { action: data, ..self },
            Command::Halt => self,
            Command::LogicNegateA => Registers {
                a: if self.a == 0 {
                    1u8
                } else {
                    0u8
                },
                ..self
            },
            Command::Add => Registers { a: ((self.a + self.b) % 256) as u8, ..self },
            Command::SaveA => self,
            Command::LoadA => Registers { a: bank[data as int], ..self },
            Command::LoadB => Registers { b: bank[data as int], ..self },
            Command::SwapAB => Registers { a: self.b, b: self.a, ..self },
            Command::JumpA => Registers { instruction: self.a, ..self },
            Command::JumpBIfAPos => if self.a > 0 {
                Registers { instruction: self.b, ..self }
            } else {
                self
            },
            Command::Sub => Registers {
                a: if self.a >= self.b {
                    (self.a - self.b) as u8
                } else {
                    0u8
                },
                ..self
            },
            Command::IncA => Registers {
                a: if self.a < 255 {
                    (self.a + 1) as u8
                } else {
                    self.a
                },
                ..self
            },
            Command::DecA => Registers {
                a: if self.a > 0 {
                    (self.a - 1) as u8
                } else {
                    self.a
                },
                ..self
            },
        }
    }

    /// Fresh registers, all zero.
    pub fn new() -> (r: Registers)
        ensures
            r == Registers::zero(),
    {
        Registers { a: 0, b: 0, instruction: 0, action: 0 }
    }
}

/// Whether executing `cmd` with operand `data` addresses a byte outside `bank`.
pub open spec fn faults(cmd: Command, data: u8, bank: Seq<u8>) -> bool {
    cmd.touches_memory() && data >= bank.len()
}

/// The bank after executing `cmd` with operand `data`: only `SaveA` writes.
pub open spec fn stored(regs: Registers, cmd: Command, data: u8, bank: Seq<u8>) -> Seq<u8> {
    if cmd == Command::SaveA && data < bank.len() {
        bank.update(data as int, regs.a)
    } else {
        bank
    }
}

/// Executes one decoded instruction. Returns whether the program halts
/// here, or `PtrOutOfRange` where the instruction addresses a byte outside
/// the bank; registers and bank are then left as they were.
pub fn execute_command(
    regs: &mut Registers,
    thing: Command,
    data: u8,
    memory: &mut Memory,
) -> (r: Result<bool, RuntimeErr>)
    ensures
        faults(thing, data, old(memory)@) ==> r == Err::<bool, RuntimeErr>(
            RuntimeErr::PtrOutOfRange,
        ) && *final(regs) == *old(regs) && final(memory)@ == old(memory)@,
        !faults(thing, data, old(memory)@) ==> r == Ok::<bool, RuntimeErr>(thing == Command::Halt)
            && *final(regs) == old(regs).executed(thing, data, old(memory)@) && final(memory)@
            == stored(*old(regs), thing, data, old(memory)@),
{
    proof {
        memory.lemma_capacity();
    }
    match thing {
        Command::LoadDirectA => {
            regs.a = data;
        },
        Command::LoadDirectB => {
            regs.b = data;
        },
        Command::Halt => {
            return Ok(true);
        },
        Command::LoadDirectAction => {
            regs.action = data;
        },
        Command::LogicNegateA => {
            regs.a = match regs.a {
                0 => 1,
                _ => 0,
            }
        },
        Command::Add => {
            regs.a = regs.a.wrapping_add(regs.b);
        },
        Command::SaveA => match memory.set_item(data as usize, regs.a) {
            Err(_) => return Err(RuntimeErr::PtrOutOfRange),
            Ok(_) => {},
        },
        Command::LoadA => match memory.get_item(data as usize) {
            Ok(saved) => {
                regs.a = saved;
            },
            Err(_) => return Err(RuntimeErr::PtrOutOfRange),
        },
        Command::LoadB => match memory.get_item(data as usize) {
            Ok(saved) => {
                regs.b = saved;
            },
            Err(_) => return Err(RuntimeErr::PtrOutOfRange),
        },
        Command::SwapAB => {
            let tmp = regs.b;
            regs.b = regs.a;
            regs.a = tmp;
        },
        Command::JumpA => {
            regs.instruction = regs.a;
        },
        Command::JumpBIfAPos => {
            if regs.a > 0 {
                regs.instruction = regs.b;
            }
        },
        Command::Sub => {
            if regs.a >= regs.b {
                regs.a -= regs.b;
            } else {
                regs.a = 0;
            }
        },
        Command::IncA => {
            if regs.a < 255 {
                regs.a += 1
            }
        },
        Command::DecA => {
            if regs.a > 0 {
                regs.a -= 1
            }
        },
    };
    Ok(false)
}

/// A machine between two instructions: its registers and its bank.
pub struct Machine {
    pub regs: Registers,
    pub bank: Seq<u8>,
}

/// What one instruction does to a machine.
pub enum Step {
    /// The instruction was executed and the program goes on.
    Running(Machine),
    /// The instruction was `Halt`.
    Halted(Machine),
    /// The instruction could not be fetched, decoded or executed.
    Failed(RuntimeErr),
}

impl Machine {
    /// The machine at the start of a decision over `bank`.
    pub open spec fn boot(bank: Seq<u8>) -> Machine {
        Machine { regs: Registers::zero(), bank }
    }

    /// Fetches, decodes and executes the instruction at the instruction
    /// pointer. The pointer moves on before the instruction is executed, so
    /// that a jump overwrites the move.
    pub open spec fn step(self) -> Step {
        let ip = self.regs.instruction as int;
        if ip + 1 >= self.bank.len() {
            Step::Failed(RuntimeErr::PtrOutOfRange)
        } else {
            let data = self.bank[ip + 1];
            match Command::decode(self.bank[ip]) {
                None => Step::Failed(RuntimeErr::UnknownCommand(self.bank[ip])),
                Some(cmd) => if faults(cmd, data, self.bank) {
                    Step::Failed(RuntimeErr::PtrOutOfRange)
                } else {
                    let regs = self.regs.advanced();
                    let next = Machine {
                        regs: regs.executed(cmd, data, self.bank),
                        bank: stored(regs, cmd, data, self.bank),
                    };
                    if cmd == Command::Halt {
                        Step::Halted(next)
                    } else {
                        Step::Running(next)
                    }
                },
            }
        }
    }

    /// Runs at most `fuel` instructions. Gives the registers at the halt, or
    /// the failure, and the bank as the run left it.
    pub open spec fn run(self, fuel: nat) -> (Result<Registers, RuntimeErr>, Seq<u8>)
        decreases fuel,
    {
        if fuel == 0 {
            (Err(RuntimeErr::OutOfTime), self.bank)
        } else {
            match self.step() {
                Step::Running(next) => next.run((fuel - 1) as nat),
                Step::Halted(next) => (Ok(next.regs), next.bank),
                Step::Failed(e) => (Err(e), self.bank),
            }
        }
    }

    /// The machine after `k` instructions that all went on, or `None` where
    /// the program halted or failed before that.
    pub open spec fn after(self, k: nat) -> Option<Machine>
        decreases k,
    {
        if k == 0 {
            Some(self)
        } else {
            match self.step() {
                Step::Running(next) => next.after((k - 1) as nat),
                _ => None,
            }
        }
    }

    /// A run that gets through `k` instructions goes on from the machine
    /// that they lead to, with `k` steps less.
    pub proof fn lemma_run_resumes(self, k: nat, fuel: nat)
        requires
            k <= fuel,
            self.after(k) is Some,
        ensures
            self.run(fuel) == self.after(k).unwrap().run((fuel - k) as nat),
        decreases k,
    {
        if k > 0 {
            match self.step() {
                Step::Running(next) => {
                    next.lemma_run_resumes((k - 1) as nat, (fuel - 1) as nat);
                },
                _ => {},
            }
        }
    }
}

/// The action that the final value of the action register stands for.
pub open spec fn verdict(r: Result<Registers, RuntimeErr>) -> Result<Action, RuntimeErr> {
    match r {
        Ok(regs) => match Action::decode(regs.action) {
            Some(action) => Ok(action),
            None => Err(RuntimeErr::InvalidAction),
        },
        Err(e) => Err(e),
    }
}

/// What a decision over `bank` returns, and the bank that it leaves.
pub open spec fn decision(bank: Seq<u8>) -> (Result<Action, RuntimeErr>, Seq<u8>) {
    let (r, left) = Machine::boot(bank).run(MAX_STEPS as nat);
    (verdict(r), left)
}

/// Runs the program in `mem` from zeroed registers until it halts, and
/// decodes the action register. Fails where the program fails, where it does
/// not halt within `MAX_STEPS` instructions, and where the action register
/// then stands for no action. What the program saved stays in `mem`.
pub fn decide(mem: &mut Memory) -> (r: Result<Action, RuntimeErr>)
    ensures
        r == decision(old(mem)@).0,
        final(mem)@ == decision(old(mem)@).1,
{
    let mut regs = Registers::new();
    let mut time: u64 = 0;
    proof {
        mem.lemma_capacity();
    }
    while time < MAX_STEPS
        invariant
            time <= MAX_STEPS,
            mem@.len() == MEMSIZE,
            Machine::boot(old(mem)@).run(MAX_STEPS as nat) == (Machine { regs, bank: mem@ }).run(
                (MAX_STEPS - time) as nat,
            ),
        decreases MAX_STEPS - time,
    {
        time += 1;
        let cmd = match mem.get_item(regs.instruction as usize) {
            Ok(x) => x,
            Err(_) => return Err(RuntimeErr::PtrOutOfRange),
        };
        let data = match mem.get_item(regs.instruction as usize + 1) {
            Ok(x) => x,
            Err(_) => return Err(RuntimeErr::PtrOutOfRange),
        };
        let command = Command::from_u8(cmd);
        regs.instruction = regs.instruction.wrapping_add(2);
        match command {
            None => {
                return Err(RuntimeErr::UnknownCommand(cmd));
            },
            Some(thing) => {
                match execute_command(&mut regs, thing, data, mem) {
                    Err(e) => {
                        return Err(e);
                    },
                    Ok(stop) => {
                        proof {
                            mem.lemma_capacity();
                        }
                        if stop {
                            return match Action::from_u8(regs.action) {
                                Ok(action) => Ok(action),
                                Err(_) => Err(RuntimeErr::InvalidAction),
                            };
                        }
                    },
                }
            },
        }
    }
    Err(RuntimeErr::OutOfTime)
}

/// A program that halts within the step bound decides on the action that
/// the action register then stands for, and fails with `InvalidAction`
/// where it stands for none. The bank is left as the program had it at the
/// halt.
pub proof fn lemma_halt_yields_action(bank: Seq<u8>, k: nat, halted: Machine)
    requires
        k < MAX_STEPS,
        Machine::boot(bank).after(k) is Some,
        Machine::boot(bank).after(k).unwrap().step() == Step::Halted(halted),
    ensures
        decision(bank).0 is Ok <==> Action::decode(halted.regs.action) is Some,
        decision(bank).0 is Ok <==> 1 <= halted.regs.action <= 6,
        decision(bank).0 is Ok ==> decision(bank).0 == Ok::<Action, RuntimeErr>(
            Action::decode(halted.regs.action).unwrap(),
        ),
        decision(bank).0 is Err ==> decision(bank).0 == Err::<Action, RuntimeErr>(
            RuntimeErr::InvalidAction,
        ),
        decision(bank).1 == halted.bank,
{
    Machine::boot(bank).lemma_run_resumes(k, MAX_STEPS as nat);
}

/// A program that executes `MAX_STEPS` instructions without halting or
/// failing runs out of time.
pub proof fn lemma_no_halt_is_out_of_time(bank: Seq<u8>)
    requires
        Machine::boot(bank).after(MAX_STEPS as nat) is Some,
    ensures
        decision(bank).0 == Err::<Action, RuntimeErr>(RuntimeErr::OutOfTime),
{
    Machine::boot(bank).lemma_run_resumes(MAX_STEPS as nat, MAX_STEPS as nat);
}

/// A program that reaches, within the step bound, an instruction that
/// reads or writes memory at an operand outside the bank fails with
/// `PtrOutOfRange`, and the bank is left as it was before that instruction.
pub proof fn lemma_operand_out_of_range(bank: Seq<u8>, k: nat)
    requires
        k < MAX_STEPS,
        Machine::boot(bank).after(k) is Some,
        ({
            let m = Machine::boot(bank).after(k).unwrap();
            let ip = m.regs.instruction as int;
            &&& ip + 1 < m.bank.len()
            &&& Command::decode(m.bank[ip]) is Some
            &&& Command::decode(m.bank[ip]).unwrap().touches_memory()
            &&& m.bank[ip + 1] >= m.bank.len()
        }),
    ensures
        decision(bank).0 == Err::<Action, RuntimeErr>(RuntimeErr::PtrOutOfRange),
        decision(bank).1 == Machine::boot(bank).after(k).unwrap().bank,
{
    Machine::boot(bank).lemma_run_resumes(k, MAX_STEPS as nat);
}

/// A decision depends on the bank alone: where it leaves the bank as it
/// found it, deciding again gives the same result and leaves the same bank.
pub proof fn lemma_decision_repeats(bank: Seq<u8>)
    requires
        decision(bank).1 == bank,
    ensures
        decision(decision(bank).1) == decision(bank),
{
}

/// A decision keeps the size of the bank.
pub proof fn lemma_decision_keeps_size(bank: Seq<u8>)
    ensures
        decision(bank).1.len() == bank.len(),
{
    lemma_run_keeps_size(Machine::boot(bank), MAX_STEPS as nat);
}

/// A run keeps the size of the bank.
pub proof fn lemma_run_keeps_size(m: Machine, fuel: nat)
    ensures
        m.run(fuel).1.len() == m.bank.len(),
    decreases fuel,
{
    if fuel > 0 {
        match m.step() {
            Step::Running(next) => {
                lemma_run_keeps_size(next, (fuel - 1) as nat);
            },
            _ => {},
        }
    }
}

} // verus!
