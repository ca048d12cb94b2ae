//! The rules of a turn, stated over plain sequences: who decides what, how
//! moves and shots change the field, and how a match is scored.

use vstd::prelude::*;
use crate::geom::{Coords, Direction};
use crate::machine::{decision, RuntimeErr};
use crate::program::Action;
use crate::report::WinStatus;
use crate::tank::Tank;

verus! {

/// Health that one hit takes.
pub const DAMAGE: i64 = 10;

/// Turns in a match.
pub const MAX_TURNS: usize = 10;

/// Whether `point` lies strictly ahead of `start` along `dir`.
pub open spec fn in_ray(point: Coords, start: Coords, dir: Direction) -> bool {
    match dir {
        Direction::Up => point.x == start.x && point.y > start.y,
        Direction::Right => point.y == start.y && point.x > start.x,
        Direction::Down => point.x == start.x && point.y < start.y,
        Direction::Left => point.y == start.y && point.x < start.x,
    }
}

/// What each participant's program decides, in roster order.
pub open spec fn verdicts(banks: Seq<Seq<u8>>) -> Seq<Result<Action, RuntimeErr>> {
    Seq::new(banks.len(), |i: int| decision(banks[i]).0)
}

/// The banks as the decisions leave them.
pub open spec fn decided(banks: Seq<Seq<u8>>) -> Seq<Seq<u8>> {
    Seq::new(banks.len(), |i: int| decision(banks[i]).1)
}

/// A participant whose program failed is knocked out.
pub open spec fn struck_out(tanks: Seq<Tank>, acts: Seq<Result<Action, RuntimeErr>>) -> Seq<Tank> {
    Seq::new(
        tanks.len(),
        |i: int|
            if acts[i] is Err {
                tanks[i].knocked_out()
            } else {
                tanks[i]
            },
    )
}

/// What the first phase does to one tank: a living tank steps or turns as
/// it decided; a dead one, or one that fires, stays as it is.
pub open spec fn manoeuvre(tank: Tank, act: Result<Action, RuntimeErr>) -> Tank {
    if !tank.is_alive() {
        tank
    } else {
        match act {
            Ok(Action::Move) => tank.stepped(),
            Ok(Action::Rotate(rot)) => tank.turned(rot),
            _ => tank,
        }
    }
}

/// The field after the first phase.
pub open spec fn manoeuvred(tanks: Seq<Tank>, acts: Seq<Result<Action, RuntimeErr>>) -> Seq<Tank> {
    Seq::new(tanks.len(), |i: int| manoeuvre(tanks[i], acts[i]))
}

/// The field after `shooter` has fired: every tank strictly ahead of it,
/// near or far, alive or not, loses `DAMAGE`.
pub open spec fn volley(tanks: Seq<Tank>, shooter: int) -> Seq<Tank> {
    Seq::new(
        tanks.len(),
        |j: int|
            if in_ray(tanks[j].pos, tanks[shooter].pos, tanks[shooter].dir) {
                tanks[j].hurt(DAMAGE as int)
            } else {
                tanks[j]
            },
    )
}

/// The field after participant `player` has carried out `action`.
pub open spec fn acted(tanks: Seq<Tank>, action: Action, player: int) -> Seq<Tank> {
    match action {
        Action::Move => tanks.update(player, tanks[player].stepped()),
        Action::Rotate(rot) => tanks.update(player, tanks[player].turned(rot)),
        Action::Fire => volley(tanks, player),
    }
}

/// Whether participant `i` fires when its turn in the second phase comes.
pub open spec fn fires(tanks: Seq<Tank>, acts: Seq<Result<Action, RuntimeErr>>, i: int) -> bool {
    tanks[i].is_alive() && acts[i] == Ok::<Action, RuntimeErr>(Action::Fire)
}

/// The field after the first `k` participants have had their turn in the
/// second phase, in roster order. One that an earlier shot killed in this
/// phase no longer fires.
pub open spec fn fired(tanks: Seq<Tank>, acts: Seq<Result<Action, RuntimeErr>>, k: nat) -> Seq<
    Tank,
>
    decreases k,
{
    if k == 0 {
        tanks
    } else {
        let before = fired(tanks, acts, (k - 1) as nat);
        if fires(before, acts, k - 1) {
            volley(before, k - 1)
        } else {
            before
        }
    }
}

/// One turn: every program decides, failed ones are knocked out, then all
/// moves and turns are applied, then all shots.
pub open spec fn turn(tanks: Seq<Tank>, banks: Seq<Seq<u8>>) -> (Seq<Tank>, Seq<Seq<u8>>) {
    let acts = verdicts(banks);
    (fired(manoeuvred(struck_out(tanks, acts), acts), acts, tanks.len()), decided(banks))
}

/// The field and the banks after `turns` turns.
pub open spec fn played(tanks: Seq<Tank>, banks: Seq<Seq<u8>>, turns: nat) -> (
    Seq<Tank>,
    Seq<Seq<u8>>,
)
    decreases turns,
{
    if turns == 0 {
        (tanks, banks)
    } else {
        let before = played(tanks, banks, (turns - 1) as nat);
        turn(before.0, before.1)
    }
}

/// How many of the tanks are alive.
pub open spec fn alive_count(tanks: Seq<Tank>) -> nat
    decreases tanks.len(),
{
    if tanks.len() == 0 {
        0
    } else {
        alive_count(tanks.drop_last()) + if tanks.last().is_alive() {
            1nat
        } else {
            0nat
        }
    }
}

/// How the match ends for participant `i`. With everyone alive or everyone
/// dead it is a draw for all. Otherwise the dead have lost; a sole survivor
/// has won, and several survivors draw.
pub open spec fn standing(tanks: Seq<Tank>, i: int) -> WinStatus {
    let alive = alive_count(tanks);
    if alive == 0 || alive == tanks.len() {
        WinStatus::Draw
    } else if !tanks[i].is_alive() {
        WinStatus::Lost
    } else if alive == 1 {
        WinStatus::Won
    } else {
        WinStatus::Draw
    }
}

/// How the match ends for each participant, in roster order.
pub open spec fn standings(tanks: Seq<Tank>) -> Seq<WinStatus> {
    Seq::new(tanks.len(), |i: int| standing(tanks, i))
}

/// Whether every tank is at least `reach` units from the edge of the
/// representable grid and can lose `slack` health without underflow, a
/// knocked-out tank included.
pub open spec fn roomy(tanks: Seq<Tank>, reach: int, slack: int) -> bool {
    &&& i64::MIN + slack <= 0
    &&& forall|i: int|
        0 <= i < tanks.len() ==> {
            &&& i64::MIN + reach <= (#[trigger] tanks[i]).pos.x <= i64::MAX - reach
            &&& i64::MIN + reach <= tanks[i].pos.y <= i64::MAX - reach
            &&& i64::MIN + slack <= tanks[i].hp
        }
}

/// Whether two fields hold the same tanks, each at most `reach` units from
/// where it was along either axis, none healthier than before unless it was
/// below zero and is now at most zero, and none more than `loss` below the
/// lesser of its old health and zero.
pub open spec fn drifted(before: Seq<Tank>, after: Seq<Tank>, reach: int, loss: int) -> bool {
    &&& after.len() == before.len()
    &&& forall|i: int|
        0 <= i < before.len() ==> {
            &&& before[i].pos.x - reach <= (#[trigger] after[i]).pos.x <= before[i].pos.x + reach
            &&& before[i].pos.y - reach <= after[i].pos.y <= before[i].pos.y + reach
            &&& after[i].hp <= before[i].hp || after[i].hp <= 0
            &&& after[i].hp >= before[i].hp - loss || after[i].hp >= -loss
        }
}

/// Shots move nothing and turn nothing, and after `k` participants have had
/// their turn to fire no tank has lost more than `k` hits.
pub proof fn lemma_fired_bounds(tanks: Seq<Tank>, acts: Seq<Result<Action, RuntimeErr>>, k: nat)
    requires
        k <= tanks.len(),
        forall|i: int| 0 <= i < tanks.len() ==> i64::MIN + DAMAGE * k <= (#[trigger] tanks[i]).hp,
    ensures
        fired(tanks, acts, k).len() == tanks.len(),
        forall|i: int|
            0 <= i < tanks.len() ==> {
                &&& (#[trigger] fired(tanks, acts, k)[i]).pos == tanks[i].pos
                &&& fired(tanks, acts, k)[i].dir == tanks[i].dir
                &&& tanks[i].hp - DAMAGE * k <= fired(tanks, acts, k)[i].hp <= tanks[i].hp
            },
    decreases k,
{
    if k > 0 {
        lemma_fired_bounds(tanks, acts, (k - 1) as nat);
    }
}

/// With everyone alive, or everyone dead, the match is a draw for all.
pub proof fn lemma_uniform_field_draws(tanks: Seq<Tank>)
    requires
        (forall|i: int| 0 <= i < tanks.len() ==> (#[trigger] tanks[i]).is_alive()) || (forall|
            i: int,
        |
            0 <= i < tanks.len() ==> !(#[trigger] tanks[i]).is_alive()),
    ensures
        forall|i: int| 0 <= i < tanks.len() ==> #[trigger] standings(tanks)[i] == WinStatus::Draw,
{
    lemma_alive_count_uniform(tanks);
}

/// The number of living tanks is the number of tanks where all are alive,
/// and zero where none is; it never exceeds the number of tanks.
pub proof fn lemma_alive_count_uniform(tanks: Seq<Tank>)
    ensures
        alive_count(tanks) <= tanks.len(),
        (forall|i: int| 0 <= i < tanks.len() ==> (#[trigger] tanks[i]).is_alive()) ==> alive_count(
            tanks,
        ) == tanks.len(),
        (forall|i: int| 0 <= i < tanks.len() ==> !(#[trigger] tanks[i]).is_alive())
            ==> alive_count(tanks) == 0,
    decreases tanks.len(),
{
    if tanks.len() > 0 {
        let front = tanks.drop_last();
        lemma_alive_count_uniform(front);
        assert(forall|i: int| 0 <= i < front.len() ==> front[i] == tanks[i]);
    }
}

/// A turn moves no tank by more than one unit, heals none, and takes from
/// none more than one hit from everyone.
pub proof fn lemma_turn_drifts(tanks: Seq<Tank>, banks: Seq<Seq<u8>>)
    requires
        tanks.len() == banks.len(),
        roomy(tanks, 1, DAMAGE * tanks.len()),
    ensures
        drifted(tanks, turn(tanks, banks).0, 1, DAMAGE * tanks.len()),
        turn(tanks, banks).1.len() == banks.len(),
{
    let acts = verdicts(banks);
    let moved = manoeuvred(struck_out(tanks, acts), acts);
    lemma_fired_bounds(moved, acts, tanks.len());
}

/// A field that drifts keeps the room it had, less the drift.
pub proof fn lemma_drift_leaves_room(
    before: Seq<Tank>,
    after: Seq<Tank>,
    reach: int,
    slack: int,
    loss: int,
)
    requires
        roomy(before, reach, slack),
        drifted(before, after, 1, loss),
        loss >= 0,
    ensures
        roomy(after, reach - 1, slack - loss),
{
    assert forall|i: int| 0 <= i < after.len() implies {
        &&& i64::MIN + (reach - 1) <= (#[trigger] after[i]).pos.x <= i64::MAX - (reach - 1)
        &&& i64::MIN + (reach - 1) <= after[i].pos.y <= i64::MAX - (reach - 1)
        &&& i64::MIN + (slack - loss) <= after[i].hp
    } by {
        assert(i64::MIN + reach <= before[i].pos.x);
    }
}

/// Elimination is final within a turn: a participant that is dead when the
/// turn begins, or whose program fails in it, is dead when the turn ends,
/// and stands and faces as before.
pub proof fn lemma_eliminated_stay_put(tanks: Seq<Tank>, banks: Seq<Seq<u8>>, i: int)
    requires
        tanks.len() == banks.len(),
        roomy(tanks, 1, DAMAGE * tanks.len()),
        0 <= i < tanks.len(),
        !tanks[i].is_alive() || decision(banks[i]).0 is Err,
    ensures
        !turn(tanks, banks).0[i].is_alive(),
        turn(tanks, banks).0[i].pos == tanks[i].pos,
        turn(tanks, banks).0[i].dir == tanks[i].dir,
{
    let acts = verdicts(banks);
    let moved = manoeuvred(struck_out(tanks, acts), acts);
    lemma_fired_bounds(moved, acts, tanks.len());
}

/// Elimination is final within a match: a participant that is dead at the
/// start is dead after any number of turns, and stands and faces as at the
/// start.
pub proof fn lemma_dead_stay_dead(tanks: Seq<Tank>, banks: Seq<Seq<u8>>, i: int, turns: nat)
    requires
        tanks.len() == banks.len(),
        roomy(tanks, turns as int, turns * (DAMAGE * tanks.len())),
        0 <= i < tanks.len(),
        !tanks[i].is_alive(),
    ensures
        played(tanks, banks, turns).0.len() == tanks.len(),
        played(tanks, banks, turns).1.len() == banks.len(),
        roomy(played(tanks, banks, turns).0, 0, 0),
        !played(tanks, banks, turns).0[i].is_alive(),
        played(tanks, banks, turns).0[i].pos == tanks[i].pos,
        played(tanks, banks, turns).0[i].dir == tanks[i].dir,
    decreases turns,
{
    let unit = DAMAGE * tanks.len();
    if turns > 0 {
        let less = (turns - 1) as nat;
        assert(turns * unit - unit == less * unit && less * unit >= 0) by (nonlinear_arith)
            requires
                turns >= 1,
                less == turns - 1,
                unit >= 0,
        ;
        lemma_played_leaves_room(tanks, banks, less, turns as int, turns * unit);
        let before = played(tanks, banks, less);
        lemma_dead_stay_dead(tanks, banks, i, less);
        lemma_eliminated_stay_put(before.0, before.1, i);
        lemma_turn_drifts(before.0, before.1);
        lemma_drift_leaves_room(before.0, turn(before.0, before.1).0, 1, unit, unit);
    }
}

/// Playing `turns` turns uses up at most `turns` units of reach and
/// `turns` hits from everyone.
pub proof fn lemma_played_leaves_room(
    tanks: Seq<Tank>,
    banks: Seq<Seq<u8>>,
    turns: nat,
    reach: int,
    slack: int,
)
    requires
        tanks.len() == banks.len(),
        turns <= reach,
        turns * (DAMAGE * tanks.len()) <= slack,
        roomy(tanks, reach, slack),
    ensures
        played(tanks, banks, turns).0.len() == tanks.len(),
        played(tanks, banks, turns).1.len() == banks.len(),
        roomy(
            played(tanks, banks, turns).0,
            reach - turns,
            slack - turns * (DAMAGE * tanks.len()),
        ),
    decreases turns,
{
    let unit = DAMAGE * tanks.len();
    if turns > 0 {
        let less = (turns - 1) as nat;
        assert(turns * unit - unit == less * unit && less * unit >= 0) by (nonlinear_arith)
            requires
                turns >= 1,
                less == turns - 1,
                unit >= 0,
        ;
        lemma_played_leaves_room(tanks, banks, less, reach, slack);
        let before = played(tanks, banks, less);
        lemma_turn_drifts(before.0, before.1);
        lemma_drift_leaves_room(
            before.0,
            turn(before.0, before.1).0,
            reach - less,
            slack - less * unit,
            unit,
        );
    }
}

} // verus!
