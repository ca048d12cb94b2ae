//! The arena: it owns the roster with every participant's tank, memory bank
//! and program, takes uploads, and plays the match.

use vstd::prelude::*;
use crate::geom::{Coords, Direction};
use crate::machine::{decide, decision, RuntimeErr};
use crate::memory::{loaded, Memory, MEMSIZE};
use crate::program::{Action, Program};
use crate::report::{Report, Shot, WinStatus};
use crate::rules::{
    acted, alive_count, decided, drifted, fired, in_ray, lemma_drift_leaves_room,
    lemma_fired_bounds, manoeuvre, manoeuvred, played, roomy, standing, standings, struck_out,
    turn, verdicts, volley, DAMAGE, MAX_TURNS,
};
use crate::tank::Tank;

verus! {

/// Why an upload was refused.
#[derive(Clone, Copy, Debug, PartialEq, Eq, Structural)]
pub enum UploadError {
    /// No participant of the roster has the given name.
    NotFound,
    /// The program is longer than a memory bank.
    TooLarge,
}

/// The arena with its roster. The four vectors run in roster order and
/// have the same length.
#[derive(Debug)]
pub struct VirtualMachine {
    players: Vec<String>,
    tanks: Vec<Tank>,
    memory: Vec<Memory>,
    programs: Vec<Program>,
}

/// The arena as plain values, in roster order.
pub struct Arena {
    /// The participants' names.
    pub players: Seq<Seq<char>>,
    /// Their tanks.
    pub tanks: Seq<Tank>,
    /// The contents of their memory banks.
    pub banks: Seq<Seq<u8>>,
    /// The programs last uploaded for them.
    pub programs: Seq<Seq<u8>>,
}

impl Arena {
    /// Every participant has a tank, a full-size bank and a program slot.
    pub open spec fn well_formed(self) -> bool {
        &&& self.tanks.len() == self.players.len()
        &&& self.banks.len() == self.players.len()
        &&& self.programs.len() == self.players.len()
        &&& forall|i: int| 0 <= i < self.banks.len() ==> (#[trigger] self.banks[i]).len() == MEMSIZE
    }

    /// Whether `i` is the first seat of the roster with the name `name`.
    pub open spec fn is_seat(self, name: Seq<char>, i: int) -> bool {
        &&& 0 <= i < self.players.len()
        &&& self.players[i] == name
        &&& forall|j: int| 0 <= j < i ==> self.players[j] != name
    }

    /// Whether the roster has a participant named `name`.
    pub open spec fn has_seat(self, name: Seq<char>) -> bool {
        exists|i: int| 0 <= i < self.players.len() && self.players[i] == name
    }

    /// Whether a whole match can be played without leaving the
    /// representable grid or health: every tank is `MAX_TURNS` units from
    /// the edge, and can take a hit from everyone in every turn, which is
    /// `MAX_TURNS` times `DAMAGE` for each participant.
    pub open spec fn can_run(self) -> bool {
        roomy(self.tanks, MAX_TURNS as int, 100 * (self.tanks.len() as int))
    }
}

impl View for VirtualMachine {
    type V = Arena;

    closed spec fn view(&self) -> Arena {
        Arena {
            players: Seq::new(self.players@.len(), |i: int| self.players@[i]@),
            tanks: self.tanks@,
            banks: Seq::new(self.memory@.len(), |i: int| self.memory@[i]@),
            programs: Seq::new(self.programs@.len(), |i: int| self.programs@[i]@),
        }
    }
}

/// Whether `point` lies strictly ahead of `start` along `dir`.
pub fn point_in_ray(point: &Coords, start: &Coords, dir: &Direction) -> (b: bool)
    ensures
        b == in_ray(*point, *start, *dir),
{
    match dir {
        Direction::Up => point.x == start.x && point.y > start.y,
        Direction::Right => point.y == start.y && point.x > start.x,
        Direction::Down => point.x == start.x && point.y < start.y,
        Direction::Left => point.y == start.y && point.x < start.x,
    }
}

impl VirtualMachine {
    /// The invariant of the arena, over its view.
    pub open spec fn wf(&self) -> bool {
        self@.well_formed()
    }

    /// The banks of an arena are full-size whatever else holds.
    proof fn lemma_banks_full(&self)
        ensures
            forall|i: int| 0 <= i < self@.banks.len() ==> (#[trigger] self@.banks[i]).len() == MEMSIZE,
    {
        assert forall|i: int| 0 <= i < self@.banks.len() implies (#[trigger] self@.banks[i]).len()
            == MEMSIZE by {
            self.memory@[i].lemma_capacity();
        }
    }

    /// An arena for the given roster: every tank fresh, every bank zeroed,
    /// every program empty.
    pub fn new(players: Vec<String>) -> (vm: VirtualMachine)
        ensures
            vm.wf(),
            vm@.players == Seq::new(players@.len(), |i: int| players@[i]@),
            vm@.tanks == Seq::new(
                players@.len(),
                |i: int| Tank { pos: Coords { x: 0, y: 0 }, dir: Direction::Right, hp: 100 },
            ),
            vm@.banks == Seq::new(players@.len(), |i: int| Seq::new(MEMSIZE as nat, |j: int| 0u8)),
            vm@.programs == Seq::new(players@.len(), |i: int| Seq::<u8>::empty()),
            vm@.can_run() <==> i64::MIN + 100 * players@.len() <= 0,
    {
        let size = players.len();
        let mut tanks: Vec<Tank> = Vec::new();
        let mut memory: Vec<Memory> = Vec::new();
        let mut programs: Vec<Program> = Vec::new();
        let mut i: usize = 0;
        while i < size
            invariant
                size == players@.len(),
                i <= size,
                tanks@.len() == i,
                memory@.len() == i,
                programs@.len() == i,
                forall|k: int|
                    0 <= k < i ==> (#[trigger] tanks@[k]) == (Tank {
                        pos: Coords { x: 0, y: 0 },
                        dir: Direction::Right,
                        hp: 100,
                    }),
                forall|k: int|
                    0 <= k < i ==> (#[trigger] memory@[k])@ == Seq::new(
                        MEMSIZE as nat,
                        |j: int| 0u8,
                    ),
                forall|k: int| 0 <= k < i ==> (#[trigger] programs@[k])@ == Seq::<u8>::empty(),
            decreases size - i,
        {
            tanks.push(Tank::new());
            memory.push(Memory::new());
            programs.push(Vec::new());
            i += 1;
        }
        let vm = VirtualMachine { players, tanks, memory, programs };
        proof {
            vm.lemma_banks_full();
            assert(vm@.tanks =~= Seq::new(
                players@.len(),
                |i: int| Tank { pos: Coords { x: 0, y: 0 }, dir: Direction::Right, hp: 100 },
            ));
            assert(vm@.banks =~= Seq::new(
                players@.len(),
                |i: int| Seq::new(MEMSIZE as nat, |j: int| 0u8),
            ));
            assert(vm@.programs =~= Seq::new(players@.len(), |i: int| Seq::<u8>::empty()));
        }
        vm
    }

    /// Uploads `program` for the first participant named `player`: the
    /// program goes to the front of that participant's bank and is kept.
    /// Fails with `NotFound` where the roster has no such name, and with
    /// `TooLarge` where the program is longer than a bank; the arena is then
    /// unchanged.
    pub fn input(self: &mut Self, program: Program, player: String) -> (r: Result<(), UploadError>)
        requires
            old(self).wf(),
        ensures
            final(self).wf(),
            !old(self)@.has_seat(player@) ==> r == Err::<(), UploadError>(UploadError::NotFound)
                && final(self)@ == old(self)@,
            old(self)@.has_seat(player@) && program@.len() > MEMSIZE ==> r == Err::<
                (),
                UploadError,
            >(UploadError::TooLarge) && final(self)@ == old(self)@,
            forall|i: int|
                old(self)@.is_seat(player@, i) && program@.len() <= MEMSIZE ==> r is Ok
                    && final(self)@ == (Arena {
                    banks: old(self)@.banks.update(i, loaded(old(self)@.banks[i], program@)),
                    programs: old(self)@.programs.update(i, program@),
                    ..old(self)@
                }),
    {
        let n = self.programs.len();
        let mut i: usize = 0;
        while i < n
            invariant
                *self == *old(self),
                self.wf(),
                n == self@.players.len(),
                i <= n,
                forall|j: int| 0 <= j < i ==> self@.players[j] != player@,
            decreases n - i,
        {
            if self.players[i] == player {
                assert(self@.players[i as int] == player@);
                match self.memory[i].set(&program) {
                    Err(_) => {
                        proof {
                            self.lemma_banks_full();
                            assert(self@.banks =~= old(self)@.banks);
                        }
                        return Err(UploadError::TooLarge);
                    },
                    Ok(_) => {},
                }
                self.programs[i] = program;
                proof {
                    self.lemma_banks_full();
                    assert(old(self)@.is_seat(player@, i as int));
                    assert(self@.banks =~= old(self)@.banks.update(
                        i as int,
                        loaded(old(self)@.banks[i as int], program@),
                    ));
                    assert(self@.programs =~= old(self)@.programs.update(i as int, program@));
                    assert(self@.players =~= old(self)@.players);
                }
                return Ok(());
            }
            i += 1;
        }
        Err(UploadError::NotFound)
    }

    /// Runs the program of participant `idx` and gives what it decides.
    /// What the program saved stays in the participant's bank.
    pub fn decide_action(self: &mut Self, idx: usize) -> (r: Result<Action, RuntimeErr>)
        requires
            old(self).wf(),
            idx < old(self)@.players.len(),
        ensures
            final(self).wf(),
            r == decision(old(self)@.banks[idx as int]).0,
            final(self)@ == (Arena {
                banks: old(self)@.banks.update(idx as int, decision(old(self)@.banks[idx as int]).1),
                ..old(self)@
            }),
    {
        let r = decide(&mut self.memory[idx]);
        proof {
            self.lemma_banks_full();
            assert(self@.banks =~= old(self)@.banks.update(
                idx as int,
                decision(old(self)@.banks[idx as int]).1,
            ));
            assert(self@.players =~= old(self)@.players);
            assert(self@.programs =~= old(self)@.programs);
        }
        r
    }

    /// Whether `other` differs from this arena in its tanks at most.
    closed spec fn same_but_tanks(&self, other: &VirtualMachine) -> bool {
        &&& self.players@ == other.players@
        &&& self.memory@ == other.memory@
        &&& self.programs@ == other.programs@
        &&& self.tanks@.len() == other.tanks@.len()
    }

    /// Carries out one action of participant `player`: a step, a turn, or a
    /// shot at everything ahead.
    fn exec_action(self: &mut Self, action: &Action, player: usize)
        requires
            player < old(self).tanks@.len(),
            *action == Action::Move ==> old(self).tanks@[player as int].pos.can_shift(
                old(self).tanks@[player as int].dir,
            ),
            *action == Action::Fire ==> forall|j: int|
                0 <= j < old(self).tanks@.len() ==> i64::MIN + DAMAGE
                    <= (#[trigger] old(self).tanks@[j]).hp,
        ensures
            final(self).same_but_tanks(old(self)),
            final(self).tanks@ == acted(old(self).tanks@, *action, player as int),
    {
        let pos = self.tanks[player].pos;
        let dir = self.tanks[player].dir;
        match action {
            Action::Move => {
                self.tanks[player].step();
            },
            Action::Rotate(rot) => {
                self.tanks[player].dir = self.tanks[player].dir.rotate(rot);
            },
            Action::Fire => {
                let n = self.tanks.len();
                let mut j: usize = 0;
                while j < n
                    invariant
                        self.same_but_tanks(old(self)),
                        n == old(self).tanks@.len(),
                        player < n,
                        j <= n,
                        pos == old(self).tanks@[player as int].pos,
                        dir == old(self).tanks@[player as int].dir,
                        forall|k: int|
                            0 <= k < n ==> i64::MIN + DAMAGE <= (#[trigger] old(self).tanks@[k]).hp,
                        forall|k: int|
                            0 <= k < j ==> (#[trigger] self.tanks@[k]) == volley(
                                old(self).tanks@,
                                player as int,
                            )[k],
                        forall|k: int|
                            j <= k < n ==> (#[trigger] self.tanks@[k]) == old(self).tanks@[k],
                    decreases n - j,
                {
                    if point_in_ray(&self.tanks[j].pos, &pos, &dir) {
                        self.tanks[j].hp -= DAMAGE;
                    }
                    j += 1;
                }
                assert(self.tanks@ =~= volley(old(self).tanks@, player as int));
            },
        }
    }

    /// The tanks as they stand.
    fn snapshot(self: &Self) -> (shot: Shot)
        ensures
            shot.players@ == self.tanks@,
    {
        let n = self.tanks.len();
        let mut players: Vec<Tank> = Vec::new();
        let mut i: usize = 0;
        while i < n
            invariant
                n == self.tanks@.len(),
                i <= n,
                players@ == self.tanks@.take(i as int),
            decreases n - i,
        {
            players.push(self.tanks[i]);
            assert(players@ =~= self.tanks@.take(i + 1));
            i += 1;
        }
        assert(self.tanks@.take(n as int) =~= self.tanks@);
        Shot { players }
    }

    /// Lets every program decide, in roster order, and knocks out the
    /// participants whose program failed.
    fn decide_all(self: &mut Self) -> (acts: Vec<Result<Action, RuntimeErr>>)
        requires
            old(self).wf(),
        ensures
            final(self).wf(),
            acts@ == verdicts(old(self)@.banks),
            final(self)@ == (Arena {
                tanks: struck_out(old(self)@.tanks, acts@),
                banks: decided(old(self)@.banks),
                ..old(self)@
            }),
    {
        let n = self.players.len();
        let mut acts: Vec<Result<Action, RuntimeErr>> = Vec::new();
        let mut player: usize = 0;
        while player < n
            invariant
                self.wf(),
                n == self@.players.len(),
                player <= n,
                acts@.len() == player,
                old(self).wf(),
                self@.players == old(self)@.players,
                self@.programs == old(self)@.programs,
                forall|i: int|
                    0 <= i < player ==> (#[trigger] acts@[i]) == decision(old(self)@.banks[i]).0,
                forall|i: int|
                    0 <= i < player ==> (#[trigger] self@.banks[i]) == decision(
                        old(self)@.banks[i],
                    ).1,
                forall|i: int|
                    0 <= i < player ==> (#[trigger] self@.tanks[i]) == (if decision(
                        old(self)@.banks[i],
                    ).0 is Err {
                        old(self)@.tanks[i].knocked_out()
                    } else {
                        old(self)@.tanks[i]
                    }),
                forall|i: int| player <= i < n ==> (#[trigger] self@.banks[i]) == old(self)@.banks[i],
                forall|i: int| player <= i < n ==> (#[trigger] self@.tanks[i]) == old(self)@.tanks[i],
            decreases n - player,
        {
            let act = self.decide_action(player);
            match act {
                Ok(_) => {},
                Err(_) => {
                    self.tanks[player].hp = 0;
                },
            }
            acts.push(act);
            player += 1;
        }
        proof {
            assert(acts@ =~= verdicts(old(self)@.banks));
            assert(self@.tanks =~= struck_out(old(self)@.tanks, acts@));
            assert(self@.banks =~= decided(old(self)@.banks));
        }
        acts
    }

    /// The first phase: every living participant that decided to move or
    /// to turn does so.
    fn move_phase(self: &mut Self, acts: &Vec<Result<Action, RuntimeErr>>)
        requires
            acts@.len() == old(self).tanks@.len(),
            roomy(old(self).tanks@, 1, 0),
        ensures
            final(self).same_but_tanks(old(self)),
            final(self).tanks@ == manoeuvred(old(self).tanks@, acts@),
    {
        let n = self.tanks.len();
        let mut player: usize = 0;
        while player < n
            invariant
                self.same_but_tanks(old(self)),
                n == old(self).tanks@.len(),
                acts@.len() == n,
                player <= n,
                roomy(old(self).tanks@, 1, 0),
                forall|i: int|
                    0 <= i < player ==> (#[trigger] self.tanks@[i]) == manoeuvre(
                        old(self).tanks@[i],
                        acts@[i],
                    ),
                forall|i: int| player <= i < n ==> (#[trigger] self.tanks@[i]) == old(self).tanks@[i],
            decreases n - player,
        {
            if self.tanks[player].alive() {
                match &acts[player] {
                    Ok(action) => match action {
                        Action::Rotate(_) | Action::Move => {
                            assert(old(self).tanks@[player as int].pos.can_shift(
                                old(self).tanks@[player as int].dir,
                            ));
                            self.exec_action(action, player);
                        },
                        _ => {},
                    },
                    Err(_) => {},
                }
            }
            player += 1;
        }
        assert(self.tanks@ =~= manoeuvred(old(self).tanks@, acts@));
    }

    /// The second phase: every participant that decided to fire, and is
    /// alive when its turn comes, fires from where the first phase left it.
    fn fire_phase(self: &mut Self, acts: &Vec<Result<Action, RuntimeErr>>)
        requires
            acts@.len() == old(self).tanks@.len(),
            forall|i: int|
                0 <= i < old(self).tanks@.len() ==> i64::MIN + DAMAGE * old(self).tanks@.len() <= (
                #[trigger] old(self).tanks@[i]).hp,
        ensures
            final(self).same_but_tanks(old(self)),
            final(self).tanks@ == fired(old(self).tanks@, acts@, old(self).tanks@.len()),
    {
        let n = self.tanks.len();
        let mut player: usize = 0;
        while player < n
            invariant
                self.same_but_tanks(old(self)),
                n == old(self).tanks@.len(),
                acts@.len() == n,
                player <= n,
                forall|i: int|
                    0 <= i < n ==> i64::MIN + DAMAGE * n <= (#[trigger] old(self).tanks@[i]).hp,
                self.tanks@ == fired(old(self).tanks@, acts@, player as nat),
            decreases n - player,
        {
            proof {
                lemma_fired_bounds(old(self).tanks@, acts@, player as nat);
            }
            if self.tanks[player].alive() {
                match &acts[player] {
                    Ok(action) => match action {
                        Action::Fire => {
                            self.exec_action(action, player);
                        },
                        _ => {},
                    },
                    Err(_) => {},
                }
            }
            player += 1;
        }
    }

    /// Plays one turn: decisions, then moves and turns, then shots.
    fn play_turn(self: &mut Self)
        requires
            old(self).wf(),
            roomy(old(self)@.tanks, 1, DAMAGE * old(self)@.tanks.len()),
        ensures
            final(self).wf(),
            final(self)@ == (Arena {
                tanks: turn(old(self)@.tanks, old(self)@.banks).0,
                banks: turn(old(self)@.tanks, old(self)@.banks).1,
                ..old(self)@
            }),
            drifted(old(self)@.tanks, final(self)@.tanks, 1, DAMAGE * old(self)@.tanks.len()),
    {
        let acts = self.decide_all();
        self.move_phase(&acts);
        let ghost moved = self.tanks@;
        proof {
            lemma_fired_bounds(moved, acts@, moved.len());
        }
        self.fire_phase(&acts);
    }

    /// How the match ends for each participant as the tanks stand.
    fn results(self: &Self) -> (res: Vec<WinStatus>)
        ensures
            res@ == standings(self.tanks@),
    {
        let n = self.tanks.len();
        let mut alive: usize = 0;
        let mut i: usize = 0;
        while i < n
            invariant
                n == self.tanks@.len(),
                i <= n,
                alive <= i,
                alive == alive_count(self.tanks@.take(i as int)),
            decreases n - i,
        {
            assert(self.tanks@.take(i + 1).drop_last() =~= self.tanks@.take(i as int));
            if self.tanks[i].alive() {
                alive += 1;
            }
            i += 1;
        }
        assert(self.tanks@.take(n as int) =~= self.tanks@);
        let mut res: Vec<WinStatus> = Vec::new();
        let mut k: usize = 0;
        while k < n
            invariant
                n == self.tanks@.len(),
                k <= n,
                alive == alive_count(self.tanks@),
                res@.len() == k,
                forall|j: int| 0 <= j < k ==> (#[trigger] res@[j]) == standing(self.tanks@, j),
            decreases n - k,
        {
            let status = if alive == 0 || alive == n {
                WinStatus::Draw
            } else if !self.tanks[k].alive() {
                WinStatus::Lost
            } else if alive == 1 {
                WinStatus::Won
            } else {
                WinStatus::Draw
            };
            res.push(status);
            k += 1;
        }
        assert(res@ =~= standings(self.tanks@));
        res
    }

    /// The participants' names, in roster order.
    fn names(self: &Self) -> (names: Vec<String>)
        ensures
            names@ == self.players@,
    {
        let n = self.players.len();
        let mut names: Vec<String> = Vec::new();
        let mut i: usize = 0;
        while i < n
            invariant
                n == self.players@.len(),
                i <= n,
                names@ == self.players@.take(i as int),
            decreases n - i,
        {
            names.push(self.players[i].clone());
            assert(names@ =~= self.players@.take(i + 1));
            i += 1;
        }
        assert(self.players@.take(n as int) =~= self.players@);
        names
    }

    /// Whether a whole match can be played from here: `run` asks for it.
    pub fn ready(self: &Self) -> (b: bool)
        requires
            self.wf(),
        ensures
            b == self@.can_run(),
    {
        let n = self.tanks.len();
        let floor: i128 = (i64::MIN as i128) + 100 * (n as i128);
        if floor > 0 {
            return false;
        }
        let low: i64 = i64::MIN + 10;
        let high: i64 = i64::MAX - 10;
        let mut i: usize = 0;
        while i < n
            invariant
                n == self.tanks@.len(),
                i <= n,
                floor == i64::MIN + 100 * n,
                floor <= 0,
                low == i64::MIN + 10,
                high == i64::MAX - 10,
                roomy(self.tanks@.take(i as int), MAX_TURNS as int, 100 * (n as int)),
            decreases n - i,
        {
            let tank = self.tanks[i];
            if tank.pos.x < low || tank.pos.x > high || tank.pos.y < low || tank.pos.y > high || (
            tank.hp as i128) < floor {
                assert(self.tanks@[i as int] == tank);
                return false;
            }
            assert forall|k: int| 0 <= k < i + 1 implies {
                &&& i64::MIN + 10 <= (#[trigger] self.tanks@.take(i + 1)[k]).pos.x <= i64::MAX - 10
                &&& i64::MIN + 10 <= self.tanks@.take(i + 1)[k].pos.y <= i64::MAX - 10
                &&& i64::MIN + 100 * n <= self.tanks@.take(i + 1)[k].hp
            } by {
                if k < i {
                    assert(self.tanks@.take(i + 1)[k] == self.tanks@.take(i as int)[k]);
                }
            }
            i += 1;
        }
        assert(self.tanks@.take(n as int) =~= self.tanks@);
        true
    }

    /// Plays the match: `MAX_TURNS` turns, each recorded as it begins, then
    /// the scoring. The report lists names and results in roster order and
    /// one shot per turn in turn order.
    pub fn run(self: &mut Self) -> (report: Report)
        requires
            old(self).wf(),
            old(self)@.can_run(),
        ensures
            final(self).wf(),
            final(self)@ == (Arena {
                tanks: played(old(self)@.tanks, old(self)@.banks, MAX_TURNS as nat).0,
                banks: played(old(self)@.tanks, old(self)@.banks, MAX_TURNS as nat).1,
                ..old(self)@
            }),
            report.player_names@.len() == old(self)@.players.len(),
            forall|i: int|
                0 <= i < old(self)@.players.len() ==> (#[trigger] report.player_names@[i])@
                    == old(self)@.players[i],
            report.match_results@ == standings(final(self)@.tanks),
            report.replay@.len() == MAX_TURNS,
            forall|t: int|
                0 <= t < MAX_TURNS ==> (#[trigger] report.replay@[t]).players@ == played(
                    old(self)@.tanks,
                    old(self)@.banks,
                    t as nat,
                ).0,
    {
        let ghost unit: int = DAMAGE * old(self)@.tanks.len();
        let mut shots: Vec<Shot> = Vec::new();
        let mut t: usize = 0;
        let ghost n: int = old(self)@.tanks.len() as int;
        proof {
            assert((MAX_TURNS - 0) * unit == 100 * n) by (nonlinear_arith)
                requires
                    unit == 10 * n,
            ;
        }
        while t < MAX_TURNS
            invariant
                self.wf(),
                old(self).wf(),
                t <= MAX_TURNS,
                unit == DAMAGE * old(self)@.tanks.len(),
                self@ == (Arena {
                    tanks: played(old(self)@.tanks, old(self)@.banks, t as nat).0,
                    banks: played(old(self)@.tanks, old(self)@.banks, t as nat).1,
                    ..old(self)@
                }),
                roomy(self@.tanks, MAX_TURNS - t, (MAX_TURNS - t) * unit),
                shots@.len() == t,
                forall|s: int|
                    0 <= s < t ==> (#[trigger] shots@[s]).players@ == played(
                        old(self)@.tanks,
                        old(self)@.banks,
                        s as nat,
                    ).0,
            decreases MAX_TURNS - t,
        {
            let shot = self.snapshot();
            shots.push(shot);
            let ghost before = self@.tanks;
            proof {
                assert((MAX_TURNS - t) * unit >= unit && (MAX_TURNS - t) * unit - unit == (MAX_TURNS
                    - (t + 1)) * unit) by (nonlinear_arith)
                    requires
                        t < MAX_TURNS,
                        unit >= 0,
                ;
            }
            self.play_turn();
            proof {
                lemma_drift_leaves_room(
                    before,
                    self@.tanks,
                    MAX_TURNS - t,
                    (MAX_TURNS - t) * unit,
                    unit,
                );
            }
            t += 1;
        }
        let player_names = self.names();
        let match_results = self.results();
        Report { player_names, match_results, replay: shots }
    }
}

} // verus!
