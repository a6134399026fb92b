//! Setting parts of the game state by hand: the values a user enters for the ball, a car or a
//! boost pad are written into the shown state and into the newest one, which is then sent back
//! to the simulation. Numbers the user typed arrive already parsed: `None` where the text was not
//! a number, which leaves the value as it was. Boolean choices arrive as menu indices: 0 leaves
//! the value, 1 means true, anything else false.
use crate::bytes::F32Bits;
use crate::rocketsim::{BallState, BoostPad, CarInfo, CarState, Vec3};
use crate::udp::GameStates;
use std::collections::HashMap;
use vstd::prelude::*;

verus! {

broadcast use vstd::std_specs::hash::group_hash_axioms;

/// The flag after the menu index `i` is applied to `b`: 0 leaves it, 1 sets it, anything else
/// clears it.
pub open spec fn bool_from_index(b: bool, i: usize) -> bool {
    if i != 0 {
        i == 1
    } else {
        b
    }
}

/// The flag after the menu index `i` of a menu that can only clear it is applied: 0 leaves it,
/// anything else clears it.
pub open spec fn half_bool_from_index(b: bool, i: usize) -> bool {
    if i != 0 {
        false
    } else {
        b
    }
}

/// Applies the menu index `i` to `b`, as `bool_from_index` says.
pub fn set_bool_from_usize(b: &mut bool, i: usize)
    ensures
        *final(b) == bool_from_index(*old(b), i),
{
    if i != 0 {
        *b = i == 1;
    }
}

/// Applies the menu index `i` to `b`, as `half_bool_from_index` says.
pub fn set_half_bool_from_usize(b: &mut bool, i: usize)
    ensures
        *final(b) == half_bool_from_index(*old(b), i),
{
    if i != 0 {
        *b = false;
    }
}

/// `x`, or the entered value where there is one.
pub open spec fn entered(x: F32Bits, v: Option<F32Bits>) -> F32Bits {
    match v {
        Some(y) => y,
        None => x,
    }
}

/// `v` with each coordinate replaced by the entered one where there is one.
pub open spec fn entered_vec(v: Vec3, e: [Option<F32Bits>; 3]) -> Vec3 {
    Vec3 { x: entered(v.x, e[0]), y: entered(v.y, e[1]), z: entered(v.z, e[2]) }
}

/// Whether a float is not zero (of either sign); a NaN is not zero.
pub open spec fn nonzero(x: F32Bits) -> bool {
    x.0 & 0x7fff_ffffu32 != 0
}

fn set_f32(x: F32Bits, v: Option<F32Bits>) -> (r: F32Bits)
    ensures
        r == entered(x, v),
{
    match v {
        Some(y) => y,
        None => x,
    }
}

fn set_vec3(v: Vec3, e: &[Option<F32Bits>; 3]) -> (r: Vec3)
    ensures
        r == entered_vec(v, *e),
{
    Vec3 { x: set_f32(v.x, e[0]), y: set_f32(v.y, e[1]), z: set_f32(v.z, e[2]) }
}

fn is_nonzero(x: F32Bits) -> (r: bool)
    ensures
        r == nonzero(x),
{
    x.0 & 0x7fff_ffffu32 != 0
}

/// Which ball values to set.
#[derive(Clone, Copy, Debug, PartialEq, Eq, Structural)]
pub enum SetBallStateAmount {
    Pos,
    Vel,
    AngVel,
    All,
}

/// What the user entered for the ball.
#[derive(Clone, Copy, Debug, PartialEq, Eq)]
pub struct UserBallValues {
    pub pos: [Option<F32Bits>; 3],
    pub vel: [Option<F32Bits>; 3],
    pub ang_vel: [Option<F32Bits>; 3],
}

/// The shown ball and the newest one after the entered values are set: each chosen vector is
/// set in the shown ball and copied to the newest.
pub open spec fn ball_set(cur: BallState, next: BallState, amount: SetBallStateAmount, u: UserBallValues) -> (
    BallState,
    BallState,
) {
    let pos = amount == SetBallStateAmount::Pos || amount == SetBallStateAmount::All;
    let vel = amount == SetBallStateAmount::Vel || amount == SetBallStateAmount::All;
    let ang = amount == SetBallStateAmount::AngVel || amount == SetBallStateAmount::All;
    let c = BallState {
        pos: if pos { entered_vec(cur.pos, u.pos) } else { cur.pos },
        vel: if vel { entered_vec(cur.vel, u.vel) } else { cur.vel },
        ang_vel: if ang { entered_vec(cur.ang_vel, u.ang_vel) } else { cur.ang_vel },
        ..cur
    };
    let n = BallState {
        pos: if pos { c.pos } else { next.pos },
        vel: if vel { c.vel } else { next.vel },
        ang_vel: if ang { c.ang_vel } else { next.ang_vel },
        ..next
    };
    (c, n)
}

/// Sets the entered ball values, as `ball_set` says; nothing else changes.
pub fn set_user_ball_state(states: &mut GameStates, amount: SetBallStateAmount, user: &UserBallValues)
    ensures
        (final(states).current.ball, final(states).next.ball) == ball_set(
            old(states).current.ball,
            old(states).next.ball,
            amount,
            *user,
        ),
        final(states).last@ == old(states).last@,
        final(states).current@ == (crate::game_state::GameStateView {
            ball: final(states).current.ball,
            ..old(states).current@
        }),
        final(states).next@ == (crate::game_state::GameStateView {
            ball: final(states).next.ball,
            ..old(states).next@
        }),
{
    let set_pos = match amount {
        SetBallStateAmount::Pos | SetBallStateAmount::All => true,
        _ => false,
    };
    let set_vel = match amount {
        SetBallStateAmount::Vel | SetBallStateAmount::All => true,
        _ => false,
    };
    let set_ang = match amount {
        SetBallStateAmount::AngVel | SetBallStateAmount::All => true,
        _ => false,
    };
    if set_pos {
        states.current.ball.pos = set_vec3(states.current.ball.pos, &user.pos);
        states.next.ball.pos = states.current.ball.pos;
    }
    if set_vel {
        states.current.ball.vel = set_vec3(states.current.ball.vel, &user.vel);
        states.next.ball.vel = states.current.ball.vel;
    }
    if set_ang {
        states.current.ball.ang_vel = set_vec3(states.current.ball.ang_vel, &user.ang_vel);
        states.next.ball.ang_vel = states.current.ball.ang_vel;
    }
}

/// Which car values to set.
#[derive(Clone, Copy, Debug, PartialEq, Eq, Structural)]
pub enum SetCarStateAmount {
    Pos,
    Vel,
    AngVel,
    Jumped,
    DoubleJumped,
    Flipped,
    Boost,
    DemoRespawnTimer,
    All,
}

/// What the user entered for a car.
#[derive(Clone, Copy, Debug, PartialEq, Eq)]
pub struct UserCarValues {
    pub pos: [Option<F32Bits>; 3],
    pub vel: [Option<F32Bits>; 3],
    pub ang_vel: [Option<F32Bits>; 3],
    pub has_jumped: usize,
    pub has_double_jumped: usize,
    pub has_flipped: usize,
    pub boost: Option<F32Bits>,
    pub demo_respawn_timer: Option<F32Bits>,
}

/// The two states of a car after its jumped flag is cleared where the menu index says so, in
/// each of them on its own.
pub open spec fn car_set_jumped(cur: CarState, next: CarState, u: UserCarValues) -> (CarState, CarState) {
    (
        CarState { has_jumped: half_bool_from_index(cur.has_jumped, u.has_jumped), ..cur },
        CarState { has_jumped: half_bool_from_index(next.has_jumped, u.has_jumped), ..next },
    )
}

/// The two states of a car after its double-jumped flag is set in the shown one and copied.
pub open spec fn car_set_double_jumped(cur: CarState, next: CarState, u: UserCarValues) -> (CarState, CarState) {
    let b = half_bool_from_index(cur.has_double_jumped, u.has_double_jumped);
    (CarState { has_double_jumped: b, ..cur }, CarState { has_double_jumped: b, ..next })
}

/// The two states of a car after its flipped flag is set in the shown one and copied.
pub open spec fn car_set_flipped(cur: CarState, next: CarState, u: UserCarValues) -> (CarState, CarState) {
    let b = half_bool_from_index(cur.has_flipped, u.has_flipped);
    (CarState { has_flipped: b, ..cur }, CarState { has_flipped: b, ..next })
}

/// The two states of a car after its demolition respawn timer is set in the shown one and
/// copied; a timer that is not zero marks the car demolished in both.
pub open spec fn car_set_timer(cur: CarState, next: CarState, u: UserCarValues) -> (CarState, CarState) {
    let t = entered(cur.demo_respawn_timer, u.demo_respawn_timer);
    (
        CarState { demo_respawn_timer: t, is_demoed: nonzero(t) || cur.is_demoed, ..cur },
        CarState { demo_respawn_timer: t, is_demoed: nonzero(t) || next.is_demoed, ..next },
    )
}

/// The two states of a car after every entered value is set in the shown one and copied.
pub open spec fn car_set_all(cur: CarState, next: CarState, u: UserCarValues) -> (CarState, CarState) {
    let t = entered(cur.demo_respawn_timer, u.demo_respawn_timer);
    let c = CarState {
        pos: entered_vec(cur.pos, u.pos),
        vel: entered_vec(cur.vel, u.vel),
        ang_vel: entered_vec(cur.ang_vel, u.ang_vel),
        has_jumped: half_bool_from_index(cur.has_jumped, u.has_jumped),
        has_double_jumped: half_bool_from_index(cur.has_double_jumped, u.has_double_jumped),
        has_flipped: half_bool_from_index(cur.has_flipped, u.has_flipped),
        boost: entered(cur.boost, u.boost),
        demo_respawn_timer: t,
        is_demoed: nonzero(t) || cur.is_demoed,
        ..cur
    };
    let n = CarState {
        pos: c.pos,
        vel: c.vel,
        ang_vel: c.ang_vel,
        has_jumped: c.has_jumped,
        has_double_jumped: c.has_double_jumped,
        has_flipped: c.has_flipped,
        boost: c.boost,
        demo_respawn_timer: t,
        is_demoed: nonzero(t) || next.is_demoed,
        ..next
    };
    (c, n)
}

/// The shown car and the newest one after the entered values are set. Each chosen value is set
/// in the shown car and copied to the newest, but for setting only the jumped flag, which is
/// cleared in each of them on its own. A demolition respawn timer that is set to anything but
/// zero marks the car demolished in both.
#[verifier::opaque]
pub open spec fn car_set(cur: CarState, next: CarState, amount: SetCarStateAmount, u: UserCarValues) -> (
    CarState,
    CarState,
) {
    match amount {
        SetCarStateAmount::Pos => {
            let p = entered_vec(cur.pos, u.pos);
            (CarState { pos: p, ..cur }, CarState { pos: p, ..next })
        },
        SetCarStateAmount::Vel => {
            let v = entered_vec(cur.vel, u.vel);
            (CarState { vel: v, ..cur }, CarState { vel: v, ..next })
        },
        SetCarStateAmount::AngVel => {
            let v = entered_vec(cur.ang_vel, u.ang_vel);
            (CarState { ang_vel: v, ..cur }, CarState { ang_vel: v, ..next })
        },
        SetCarStateAmount::Jumped => car_set_jumped(cur, next, u),
        SetCarStateAmount::DoubleJumped => car_set_double_jumped(cur, next, u),
        SetCarStateAmount::Flipped => car_set_flipped(cur, next, u),
        SetCarStateAmount::Boost => {
            let b = entered(cur.boost, u.boost);
            (CarState { boost: b, ..cur }, CarState { boost: b, ..next })
        },
        SetCarStateAmount::DemoRespawnTimer => car_set_timer(cur, next, u),
        SetCarStateAmount::All => car_set_all(cur, next, u),
    }
}

fn half_bool(b: bool, i: usize) -> (r: bool)
    ensures
        r == half_bool_from_index(b, i),
{
    if i != 0 {
        false
    } else {
        b
    }
}

fn set_car_pos(cur: CarState, next: CarState, u: &UserCarValues) -> (r: (CarState, CarState))
    ensures
        r == car_set(cur, next, SetCarStateAmount::Pos, *u),
{
    proof {
        reveal(car_set);
    }
    let p = set_vec3(cur.pos, &u.pos);
    (CarState { pos: p, ..cur }, CarState { pos: p, ..next })
}

fn set_car_vel(cur: CarState, next: CarState, u: &UserCarValues) -> (r: (CarState, CarState))
    ensures
        r == car_set(cur, next, SetCarStateAmount::Vel, *u),
{
    proof {
        reveal(car_set);
    }
    let v = set_vec3(cur.vel, &u.vel);
    (CarState { vel: v, ..cur }, CarState { vel: v, ..next })
}

fn set_car_ang_vel(cur: CarState, next: CarState, u: &UserCarValues) -> (r: (CarState, CarState))
    ensures
        r == car_set(cur, next, SetCarStateAmount::AngVel, *u),
{
    proof {
        reveal(car_set);
    }
    let v = set_vec3(cur.ang_vel, &u.ang_vel);
    (CarState { ang_vel: v, ..cur }, CarState { ang_vel: v, ..next })
}

fn set_car_jumped(cur: CarState, next: CarState, u: &UserCarValues) -> (r: (CarState, CarState))
    ensures
        r == car_set(cur, next, SetCarStateAmount::Jumped, *u),
{
    proof {
        reveal(car_set);
    }
    (
        CarState { has_jumped: half_bool(cur.has_jumped, u.has_jumped), ..cur },
        CarState { has_jumped: half_bool(next.has_jumped, u.has_jumped), ..next },
    )
}

fn set_car_double_jumped(cur: CarState, next: CarState, u: &UserCarValues) -> (r: (CarState, CarState))
    ensures
        r == car_set(cur, next, SetCarStateAmount::DoubleJumped, *u),
{
    proof {
        reveal(car_set);
    }
    let b = half_bool(cur.has_double_jumped, u.has_double_jumped);
    (CarState { has_double_jumped: b, ..cur }, CarState { has_double_jumped: b, ..next })
}

fn set_car_flipped(cur: CarState, next: CarState, u: &UserCarValues) -> (r: (CarState, CarState))
    ensures
        r == car_set(cur, next, SetCarStateAmount::Flipped, *u),
{
    proof {
        reveal(car_set);
    }
    let b = half_bool(cur.has_flipped, u.has_flipped);
    (CarState { has_flipped: b, ..cur }, CarState { has_flipped: b, ..next })
}

fn set_car_boost(cur: CarState, next: CarState, u: &UserCarValues) -> (r: (CarState, CarState))
    ensures
        r == car_set(cur, next, SetCarStateAmount::Boost, *u),
{
    proof {
        reveal(car_set);
    }
    let b = set_f32(cur.boost, u.boost);
    (CarState { boost: b, ..cur }, CarState { boost: b, ..next })
}

fn set_car_demo_respawn_timer(cur: CarState, next: CarState, u: &UserCarValues) -> (r: (CarState, CarState))
    ensures
        r == car_set(cur, next, SetCarStateAmount::DemoRespawnTimer, *u),
{
    proof {
        reveal(car_set);
    }
    let t = set_f32(cur.demo_respawn_timer, u.demo_respawn_timer);
    let demoed = is_nonzero(t);
    (
        CarState { demo_respawn_timer: t, is_demoed: demoed || cur.is_demoed, ..cur },
        CarState { demo_respawn_timer: t, is_demoed: demoed || next.is_demoed, ..next },
    )
}

fn set_car_all(cur: CarState, next: CarState, u: &UserCarValues) -> (r: (CarState, CarState))
    ensures
        r == car_set(cur, next, SetCarStateAmount::All, *u),
{
    proof {
        reveal(car_set);
    }
    let t = set_f32(cur.demo_respawn_timer, u.demo_respawn_timer);
    let demoed = is_nonzero(t);
    let c = CarState {
        pos: set_vec3(cur.pos, &u.pos),
        vel: set_vec3(cur.vel, &u.vel),
        ang_vel: set_vec3(cur.ang_vel, &u.ang_vel),
        has_jumped: half_bool(cur.has_jumped, u.has_jumped),
        has_double_jumped: half_bool(cur.has_double_jumped, u.has_double_jumped),
        has_flipped: half_bool(cur.has_flipped, u.has_flipped),
        boost: set_f32(cur.boost, u.boost),
        demo_respawn_timer: t,
        is_demoed: demoed || cur.is_demoed,
        ..cur
    };
    let n = CarState {
        pos: c.pos,
        vel: c.vel,
        ang_vel: c.ang_vel,
        has_jumped: c.has_jumped,
        has_double_jumped: c.has_double_jumped,
        has_flipped: c.has_flipped,
        boost: c.boost,
        demo_respawn_timer: t,
        is_demoed: demoed || next.is_demoed,
        ..next
    };
    (c, n)
}

/// Sets the entered car values in the two states of one car, as `car_set` says.
fn apply_car_values(cur: CarState, next: CarState, amount: SetCarStateAmount, u: &UserCarValues) -> (r: (
    CarState,
    CarState,
))
    ensures
        r == car_set(cur, next, amount, *u),
{
    match amount {
        SetCarStateAmount::Pos => set_car_pos(cur, next, u),
        SetCarStateAmount::Vel => set_car_vel(cur, next, u),
        SetCarStateAmount::AngVel => set_car_ang_vel(cur, next, u),
        SetCarStateAmount::Jumped => set_car_jumped(cur, next, u),
        SetCarStateAmount::DoubleJumped => set_car_double_jumped(cur, next, u),
        SetCarStateAmount::Flipped => set_car_flipped(cur, next, u),
        SetCarStateAmount::Boost => set_car_boost(cur, next, u),
        SetCarStateAmount::DemoRespawnTimer => set_car_demo_respawn_timer(cur, next, u),
        SetCarStateAmount::All => set_car_all(cur, next, u),
    }
}

/// The first car at or after `k` with id `id`.
pub open spec fn car_index_from(cars: Seq<CarInfo>, id: u32, k: nat) -> Option<nat>
    decreases cars.len() - k,
{
    if k >= cars.len() {
        None
    } else if cars[k as int].id == id {
        Some(k)
    } else {
        car_index_from(cars, id, k + 1)
    }
}

/// The place of the first car with id `id`.
pub open spec fn car_index(cars: Seq<CarInfo>, id: u32) -> Option<nat> {
    car_index_from(cars, id, 0)
}

/// The place of the first car with id `id`.
pub fn find_car(cars: &Vec<CarInfo>, id: u32) -> (r: Option<usize>)
    ensures
        r is Some <==> car_index(cars@, id) is Some,
        r matches Some(i) ==> car_index(cars@, id) == Some(i as nat) && i < cars@.len() && cars@[i as int].id == id,
{
    let mut k: usize = 0;
    while k < cars.len()
        invariant
            k <= cars@.len(),
            car_index(cars@, id) == car_index_from(cars@, id, k as nat),
        decreases cars@.len() - k,
    {
        if cars[k].id == id {
            return Some(k);
        }
        k += 1;
    }
    None
}

/// Sets the entered values for the first car with id `car_id` in the shown and the newest
/// state, as `car_set` says, and says whether there was such a car; nothing else changes. The
/// newest state must have a car at that place too.
pub fn set_user_car_state(
    states: &mut GameStates,
    car_id: u32,
    amount: SetCarStateAmount,
    user: &UserCarValues,
) -> (found: bool)
    requires
        car_index(old(states).current.cars@, car_id) matches Some(i) ==> i < old(states).next.cars@.len(),
    ensures
        found == car_index(old(states).current.cars@, car_id) is Some,
        final(states).last@ == old(states).last@,
        !found ==> final(states)@ == old(states)@,
        found ==> ({
            let i = car_index(old(states).current.cars@, car_id)->0 as int;
            let old_cur = old(states).current.cars@[i];
            let old_next = old(states).next.cars@[i];
            let (c, n) = car_set(old_cur.state, old_next.state, amount, *user);
            &&& final(states).current@ == (crate::game_state::GameStateView {
                cars: old(states).current.cars@.update(i, CarInfo { state: c, ..old_cur }),
                ..old(states).current@
            })
            &&& final(states).next@ == (crate::game_state::GameStateView {
                cars: old(states).next.cars@.update(i, CarInfo { state: n, ..old_next }),
                ..old(states).next@
            })
        }),
{
    let i = match find_car(&states.current.cars, car_id) {
        Some(i) => i,
        None => {
            return false;
        },
    };
    let mut cur = states.current.cars[i];
    let mut nxt = states.next.cars[i];
    let (c, n) = apply_car_values(cur.state, nxt.state, amount, user);
    cur.state = c;
    nxt.state = n;
    states.current.cars.set(i, cur);
    states.next.cars.set(i, nxt);
    true
}

/// Whether the pairs are in order of their codes.
pub open spec fn sorted_by_code(s: Seq<(usize, u64)>) -> bool {
    forall|i: int, j: int| 0 <= i <= j < s.len() ==> s[i].1 <= s[j].1
}

/// `radsort::sort_by_key` with the code as the key: afterwards the pairs are the same ones,
/// in order of their codes, and pairs with equal codes keep their order (the sort is stable).
#[verifier::external_body]
fn sort_by_code(v: &mut Vec<(usize, u64)>)
    ensures
        final(v)@.to_multiset() == old(v)@.to_multiset(),
        sorted_by_code(final(v)@),
        forall|i: int, j: int|
            0 <= i < j < final(v)@.len() && final(v)@[i].1 == final(v)@[j].1 ==> exists|p: int, q: int|
                0 <= p < q < old(v)@.len() && old(v)@[p] == #[trigger] final(v)@[i] && old(v)@[q]
                    == #[trigger] final(v)@[j],
{
    radsort::sort_by_key(v.as_mut_slice(), |pair| pair.1);
}

/// `slice::binary_search_by_key` with the code as the key. On pairs in order of their codes it
/// finds a pair with code `code` where there is one (any one of them), and otherwise gives the
/// place where such a pair would go.
#[verifier::external_body]
fn search_code(sorted: &[(usize, u64)], code: u64) -> (r: Result<usize, usize>)
    ensures
        sorted_by_code(sorted@) ==> match r {
            Ok(i) => i < sorted@.len() && sorted@[i as int].1 == code,
            Err(i) => i <= sorted@.len() && (forall|k: int| 0 <= k < i ==> sorted@[k].1 < code) && (
            forall|k: int| i <= k < sorted@.len() ==> sorted@[k].1 > code),
        },
{
    sorted.binary_search_by_key(&code, |pair| pair.1)
}

/// The pads' places paired with their codes, `codes[i]` being the code of pad `i`, in order of
/// their codes; pads with equal codes stay in the order of their places.
pub fn sorted_pad_codes(codes: &[u64]) -> (r: Vec<(usize, u64)>)
    ensures
        r@.len() == codes@.len(),
        sorted_by_code(r@),
        forall|k: int| 0 <= k < r@.len() ==> (#[trigger] r@[k]).0 < codes@.len() && r@[k].1 == codes@[r@[k].0 as int],
        forall|i: int| 0 <= i < codes@.len() ==> r@.contains((i as usize, #[trigger] codes@[i])),
        forall|a: int, b: int|
            0 <= a < b < r@.len() && r@[a].1 == r@[b].1 ==> (#[trigger] r@[a]).0 < (#[trigger] r@[b]).0,
{
    let mut pairs: Vec<(usize, u64)> = Vec::with_capacity(codes.len());
    let mut i: usize = 0;
    while i < codes.len()
        invariant
            i <= codes@.len(),
            pairs@.len() == i,
            forall|k: int| 0 <= k < i ==> #[trigger] pairs@[k] == (k as usize, codes@[k]),
        decreases codes@.len() - i,
    {
        pairs.push((i, codes[i]));
        i += 1;
    }
    let ghost before = pairs@;
    sort_by_code(&mut pairs);
    proof {
        broadcast use vstd::seq_lib::group_to_multiset_ensures;

        assert(pairs@.len() == pairs@.to_multiset().len());
        assert(before.len() == before.to_multiset().len());
        assert forall|k: int| 0 <= k < pairs@.len() implies (#[trigger] pairs@[k]).0 < codes@.len()
            && pairs@[k].1 == codes@[pairs@[k].0 as int] by {
            assert(pairs@.to_multiset().count(pairs@[k]) > 0);
            assert(before.contains(pairs@[k]));
            let p = choose|p: int| 0 <= p < before.len() && before[p] == pairs@[k];
            assert(before[p] == (p as usize, codes@[p]));
        }
        assert forall|i: int| 0 <= i < codes@.len() implies pairs@.contains((i as usize, #[trigger] codes@[i])) by {
            assert(before[i] == (i as usize, codes@[i]));
            assert(before.to_multiset().count(before[i]) > 0);
            assert(pairs@.contains(before[i]));
        }
        assert forall|a: int, b: int|
            0 <= a < b < pairs@.len() && pairs@[a].1 == pairs@[b].1 implies (#[trigger] pairs@[a]).0 < (
            #[trigger] pairs@[b]).0 by {
            let (p, q) = choose|p: int, q: int|
                0 <= p < q < before.len() && before[p] == pairs@[a] && before[q] == pairs@[b];
            assert(before[p] == (p as usize, codes@[p]));
            assert(before[q] == (q as usize, codes@[q]));
        }
    }
    pairs
}

/// What the user entered for a boost pad: the menu index for whether it is active, and its
/// cooldown.
#[derive(Clone, Copy, Debug, PartialEq, Eq)]
pub struct UserPadValues {
    pub is_active: usize,
    pub cooldown: Option<F32Bits>,
}

/// The shown pad and the newest one after the entered values are set in the shown pad and
/// copied to the newest.
pub open spec fn pad_set(cur: BoostPad, next: BoostPad, u: UserPadValues) -> (BoostPad, BoostPad) {
    let active = bool_from_index(cur.state.is_active, u.is_active);
    let cooldown = entered(cur.state.cooldown, u.cooldown);
    (
        BoostPad { state: crate::rocketsim::BoostPadState { is_active: active, cooldown, ..cur.state }, ..cur },
        BoostPad { state: crate::rocketsim::BoostPadState { is_active: active, cooldown, ..next.state }, ..next },
    )
}

/// Sets the entered values for the pad whose code is `code`, found in `sorted` (the pads' places
/// paired with their codes, in order of their codes), in the shown and the newest state, as
/// `pad_set` says, and gives the pad's place; `None`, with nothing changed, where no pad has that
/// code. Every pair with that code must name a pad of both states.
pub fn set_user_pad_state(
    states: &mut GameStates,
    sorted: &[(usize, u64)],
    code: u64,
    user: &UserPadValues,
) -> (r: Option<usize>)
    requires
        sorted_by_code(sorted@),
        forall|k: int|
            0 <= k < sorted@.len() && (#[trigger] sorted@[k]).1 == code ==> sorted@[k].0 < old(
                states,
            ).current.pads@.len() && sorted@[k].0 < old(states).next.pads@.len(),
    ensures
        r is None <==> (forall|k: int| 0 <= k < sorted@.len() ==> (#[trigger] sorted@[k]).1 != code),
        r is None ==> final(states)@ == old(states)@,
        r matches Some(i) ==> ({
            let (c, n) = pad_set(old(states).current.pads@[i as int], old(states).next.pads@[i as int], *user);
            &&& exists|k: int| 0 <= k < sorted@.len() && (#[trigger] sorted@[k]) == (i, code)
            &&& final(states).last@ == old(states).last@
            &&& final(states).current@ == (crate::game_state::GameStateView {
                pads: old(states).current.pads@.update(i as int, c),
                ..old(states).current@
            })
            &&& final(states).next@ == (crate::game_state::GameStateView {
                pads: old(states).next.pads@.update(i as int, n),
                ..old(states).next@
            })
        }),
{
    let index = match search_code(sorted, code) {
        Ok(index) => index,
        Err(_) => {
            return None;
        },
    };
    let i = sorted[index].0;
    assert(sorted@[index as int] == (i, code));
    let mut cur = states.current.pads[i];
    let mut nxt = states.next.pads[i];
    set_bool_from_usize(&mut cur.state.is_active, user.is_active);
    cur.state.cooldown = set_f32(cur.state.cooldown, user.cooldown);
    nxt.state.is_active = cur.state.is_active;
    nxt.state.cooldown = cur.state.cooldown;
    states.current.pads.set(i, cur);
    states.next.pads.set(i, nxt);
    Some(i)
}

/// The map after the menu of `id` is switched: an open menu is closed and a closed one opened;
/// a menu never switched before is opened.
pub open spec fn toggled<K>(m: Map<K, bool>, id: K) -> Map<K, bool> {
    m.insert(id, if m.contains_key(id) { !m[id] } else { true })
}

/// Which boost pads, by code, have their menu open.
pub struct EnablePadInfo(HashMap<u64, bool>);

impl EnablePadInfo {
    /// No menus opened yet.
    pub fn new() -> (r: Self)
        ensures
            r@ == Map::<u64, bool>::empty(),
    {
        EnablePadInfo(HashMap::new())
    }

    /// Whether the menu of each pad that was ever switched is open.
    pub closed spec fn view(&self) -> Map<u64, bool> {
        self.0@
    }

    /// Switches the menu of pad `id`, as `toggled` says.
    pub fn toggle(&mut self, id: u64)
        ensures
            final(self)@ == toggled(old(self)@, id),
    {
        let now = match self.0.get(&id) {
            Some(enabled) => !*enabled,
            None => true,
        };
        self.0.insert(id, now);
    }

    /// Whether the menu of pad `id` is open; `None` where it was never switched.
    pub fn get(&self, id: u64) -> (r: Option<bool>)
        ensures
            r == (if self@.contains_key(id) { Some(self@[id]) } else { None }),
    {
        match self.0.get(&id) {
            Some(enabled) => Some(*enabled),
            None => None,
        }
    }
}

/// Which cars, by id, have their menu open.
pub struct EnableCarInfo(HashMap<u32, bool>);

impl EnableCarInfo {
    /// No menus opened yet.
    pub fn new() -> (r: Self)
        ensures
            r@ == Map::<u32, bool>::empty(),
    {
        EnableCarInfo(HashMap::new())
    }

    /// Whether the menu of each car that was ever switched is open.
    pub closed spec fn view(&self) -> Map<u32, bool> {
        self.0@
    }

    /// Switches the menu of car `id`, as `toggled` says.
    pub fn toggle(&mut self, id: u32)
        ensures
            final(self)@ == toggled(old(self)@, id),
    {
        let now = match self.0.get(&id) {
            Some(enabled) => !*enabled,
            None => true,
        };
        self.0.insert(id, now);
    }

    /// Whether the menu of car `id` is open; `None` where it was never switched.
    pub fn get(&self, id: u32) -> (r: Option<bool>)
        ensures
            r == (if self@.contains_key(id) { Some(self@[id]) } else { None }),
    {
        match self.0.get(&id) {
            Some(enabled) => Some(*enabled),
            None => None,
        }
    }
}

/// Whether the ball's menu is open.
pub struct EnableBallInfo(pub bool);

impl EnableBallInfo {
    /// Opens a closed menu, closes an open one.
    pub fn toggle(&mut self)
        ensures
            final(self).0 == !old(self).0,
    {
        self.0 = !self.0;
    }
}

/// What the user typed into a car's menu.
pub struct UserCarState {
    pub pos: [String; 3],
    pub vel: [String; 3],
    pub ang_vel: [String; 3],
    pub has_jumped: usize,
    pub has_double_jumped: usize,
    pub has_flipped: usize,
    pub boost: String,
    pub demo_respawn_timer: String,
}

/// What the user typed into the car menus, by car id.
pub struct UserCarStates(HashMap<u32, UserCarState>);

impl UserCarStates {
    /// Nothing typed yet.
    pub fn new() -> (r: Self)
        ensures
            r@.dom() == Set::<u32>::empty(),
    {
        UserCarStates(HashMap::new())
    }

    /// The ids of the cars with typed values, with what was typed.
    pub closed spec fn view(&self) -> Map<u32, UserCarState> {
        self.0@
    }

    /// Forgets everything typed.
    pub fn clear(&mut self)
        ensures
            final(self)@.dom() == Set::<u32>::empty(),
    {
        self.0.clear();
    }

    /// Forgets what was typed for car `id`, as when the car leaves the game.
    pub fn remove(&mut self, id: u32)
        ensures
            final(self)@ == old(self)@.remove(id),
    {
        self.0.remove(&id);
    }

    /// Keeps `state` as what was typed for car `id`.
    pub fn insert(&mut self, id: u32, state: UserCarState)
        ensures
            final(self)@ == old(self)@.insert(id, state),
    {
        self.0.insert(id, state);
    }

    /// What was typed for car `id`.
    pub fn get(&self, id: u32) -> (r: Option<&UserCarState>)
        ensures
            r is Some <==> self@.contains_key(id),
            r matches Some(v) ==> *v == self@[id],
    {
        self.0.get(&id)
    }
}

/// What the user typed into a boost pad's menu.
pub struct UserPadState {
    pub is_active: usize,
    pub timer: String,
}

/// What the user typed into the boost pad menus, by pad code.
pub struct UserPadStates(HashMap<u64, UserPadState>);

impl UserPadStates {
    /// Nothing typed yet.
    pub fn new() -> (r: Self)
        ensures
            r@.dom() == Set::<u64>::empty(),
    {
        UserPadStates(HashMap::new())
    }

    /// The codes of the pads with typed values, with what was typed.
    pub closed spec fn view(&self) -> Map<u64, UserPadState> {
        self.0@
    }

    /// Forgets everything typed.
    pub fn clear(&mut self)
        ensures
            final(self)@.dom() == Set::<u64>::empty(),
    {
        self.0.clear();
    }

    /// Keeps `state` as what was typed for pad `code`.
    pub fn insert(&mut self, code: u64, state: UserPadState)
        ensures
            final(self)@ == old(self)@.insert(code, state),
    {
        self.0.insert(code, state);
    }

    /// What was typed for pad `code`.
    pub fn get(&self, code: u64) -> (r: Option<&UserPadState>)
        ensures
            r is Some <==> self@.contains_key(code),
            r matches Some(v) ==> *v == self@[code],
    {
        self.0.get(&code)
    }
}

/// Switching a menu twice leaves it as it was, for a menu that was switched before.
pub proof fn lemma_toggle_twice<K>(m: Map<K, bool>, id: K)
    requires
        m.contains_key(id),
    ensures
        toggled(toggled(m, id), id) == m,
{
    assert(toggled(toggled(m, id), id) =~= m);
}

/// Setting the same entered ball values again changes nothing more.
pub proof fn lemma_ball_setting_again_changes_nothing(
    cur: BallState,
    next: BallState,
    amount: SetBallStateAmount,
    u: UserBallValues,
)
    ensures
        ({
            let b = ball_set(cur, next, amount, u);
            ball_set(b.0, b.1, amount, u) == b
        }),
{
}

/// Setting the same entered pad values again changes nothing more.
pub proof fn lemma_pad_setting_again_changes_nothing(cur: BoostPad, next: BoostPad, u: UserPadValues)
    ensures
        ({
            let p = pad_set(cur, next, u);
            pad_set(p.0, p.1, u) == p
        }),
{
}


/// Entering the same coordinates again changes nothing more.
proof fn lemma_entered_vec_twice(v: Vec3, e: [Option<F32Bits>; 3])
    ensures
        entered_vec(entered_vec(v, e), e) == entered_vec(v, e),
{
}

#[verifier::spinoff_prover]
#[verifier::rlimit(60)]
proof fn lemma_car_pos_twice(cur: CarState, next: CarState, u: UserCarValues)
    ensures
        ({
            let c = car_set(cur, next, SetCarStateAmount::Pos, u);
            car_set(c.0, c.1, SetCarStateAmount::Pos, u) == c
        }),
{
    reveal(car_set);
    lemma_entered_vec_twice(cur.pos, u.pos);
}

#[verifier::spinoff_prover]
#[verifier::rlimit(60)]
proof fn lemma_car_vel_twice(cur: CarState, next: CarState, u: UserCarValues)
    ensures
        ({
            let c = car_set(cur, next, SetCarStateAmount::Vel, u);
            car_set(c.0, c.1, SetCarStateAmount::Vel, u) == c
        }),
{
    reveal(car_set);
    lemma_entered_vec_twice(cur.vel, u.vel);
}

#[verifier::spinoff_prover]
#[verifier::rlimit(60)]
proof fn lemma_car_ang_vel_twice(cur: CarState, next: CarState, u: UserCarValues)
    ensures
        ({
            let c = car_set(cur, next, SetCarStateAmount::AngVel, u);
            car_set(c.0, c.1, SetCarStateAmount::AngVel, u) == c
        }),
{
    reveal(car_set);
    lemma_entered_vec_twice(cur.ang_vel, u.ang_vel);
}

/// Setting only the jumped flag is what `car_set_jumped` says.
#[verifier::spinoff_prover]
#[verifier::rlimit(60)]
proof fn lemma_car_set_jumped(cur: CarState, next: CarState, u: UserCarValues)
    ensures
        car_set(cur, next, SetCarStateAmount::Jumped, u) == car_set_jumped(cur, next, u),
{
    reveal(car_set);
}

#[verifier::spinoff_prover]
#[verifier::rlimit(100)]
proof fn lemma_car_jumped_twice(cur: CarState, next: CarState, u: UserCarValues)
    ensures
        ({
            let c = car_set(cur, next, SetCarStateAmount::Jumped, u);
            car_set(c.0, c.1, SetCarStateAmount::Jumped, u) == c
        }),
{
    lemma_car_set_jumped(cur, next, u);
    let c = car_set_jumped(cur, next, u);
    let c0 = c.0;
    let c1 = c.1;
    assert(c0.has_jumped == half_bool_from_index(c0.has_jumped, u.has_jumped));
    assert(c1.has_jumped == half_bool_from_index(c1.has_jumped, u.has_jumped));
    lemma_car_set_jumped(c0, c1, u);
    lemma_same_jumped(c0, u.has_jumped);
    lemma_same_jumped(c1, u.has_jumped);
    assert(car_set_jumped(c0, c1, u) == (c0, c1));
}

/// Clearing the jumped flag of a car whose flag the same menu index already cleared leaves the
/// car as it is.
#[verifier::spinoff_prover]
proof fn lemma_same_jumped(s: CarState, i: usize)
    requires
        s.has_jumped == half_bool_from_index(s.has_jumped, i),
    ensures
        (CarState { has_jumped: half_bool_from_index(s.has_jumped, i), ..s }) == s,
{
}

#[verifier::spinoff_prover]
#[verifier::rlimit(60)]
proof fn lemma_car_double_jumped_twice(cur: CarState, next: CarState, u: UserCarValues)
    ensures
        ({
            let c = car_set(cur, next, SetCarStateAmount::DoubleJumped, u);
            car_set(c.0, c.1, SetCarStateAmount::DoubleJumped, u) == c
        }),
{
    let c = car_set_double_jumped(cur, next, u);
    assert(car_set(cur, next, SetCarStateAmount::DoubleJumped, u) == c) by {
        reveal(car_set);
    }
    let d = car_set_double_jumped(c.0, c.1, u);
    assert(car_set(c.0, c.1, SetCarStateAmount::DoubleJumped, u) == d) by {
        reveal(car_set);
    }
    assert(d.0 == c.0);
    assert(d.1 == c.1);
}

#[verifier::spinoff_prover]
#[verifier::rlimit(60)]
proof fn lemma_car_flipped_twice(cur: CarState, next: CarState, u: UserCarValues)
    ensures
        ({
            let c = car_set(cur, next, SetCarStateAmount::Flipped, u);
            car_set(c.0, c.1, SetCarStateAmount::Flipped, u) == c
        }),
{
    let c = car_set_flipped(cur, next, u);
    assert(car_set(cur, next, SetCarStateAmount::Flipped, u) == c) by {
        reveal(car_set);
    }
    let d = car_set_flipped(c.0, c.1, u);
    assert(car_set(c.0, c.1, SetCarStateAmount::Flipped, u) == d) by {
        reveal(car_set);
    }
    assert(d.0 == c.0);
    assert(d.1 == c.1);
}

#[verifier::spinoff_prover]
#[verifier::rlimit(60)]
proof fn lemma_car_boost_twice(cur: CarState, next: CarState, u: UserCarValues)
    ensures
        ({
            let c = car_set(cur, next, SetCarStateAmount::Boost, u);
            car_set(c.0, c.1, SetCarStateAmount::Boost, u) == c
        }),
{
    reveal(car_set);
}

#[verifier::spinoff_prover]
#[verifier::rlimit(60)]
proof fn lemma_car_timer_twice(cur: CarState, next: CarState, u: UserCarValues)
    ensures
        ({
            let c = car_set(cur, next, SetCarStateAmount::DemoRespawnTimer, u);
            car_set(c.0, c.1, SetCarStateAmount::DemoRespawnTimer, u) == c
        }),
{
    reveal(car_set);
}

#[verifier::spinoff_prover]
#[verifier::rlimit(60)]
proof fn lemma_car_all_twice(cur: CarState, next: CarState, u: UserCarValues)
    ensures
        ({
            let c = car_set(cur, next, SetCarStateAmount::All, u);
            car_set(c.0, c.1, SetCarStateAmount::All, u) == c
        }),
{
    reveal(car_set);
    lemma_entered_vec_twice(cur.pos, u.pos);
    lemma_entered_vec_twice(cur.vel, u.vel);
    lemma_entered_vec_twice(cur.ang_vel, u.ang_vel);
}

/// Setting the same entered car values again changes nothing more.
pub proof fn lemma_car_setting_again_changes_nothing(
    cur: CarState,
    next: CarState,
    amount: SetCarStateAmount,
    u: UserCarValues,
)
    ensures
        ({
            let c = car_set(cur, next, amount, u);
            car_set(c.0, c.1, amount, u) == c
        }),
{
    match amount {
        SetCarStateAmount::Pos => lemma_car_pos_twice(cur, next, u),
        SetCarStateAmount::Vel => lemma_car_vel_twice(cur, next, u),
        SetCarStateAmount::AngVel => lemma_car_ang_vel_twice(cur, next, u),
        SetCarStateAmount::DemoRespawnTimer => lemma_car_timer_twice(cur, next, u),
        SetCarStateAmount::All => lemma_car_all_twice(cur, next, u),
        SetCarStateAmount::Jumped => lemma_car_jumped_twice(cur, next, u),
        SetCarStateAmount::DoubleJumped => lemma_car_double_jumped_twice(cur, next, u),
        SetCarStateAmount::Flipped => lemma_car_flipped_twice(cur, next, u),
        SetCarStateAmount::Boost => lemma_car_boost_twice(cur, next, u),
    }
}


/// Whether `new` holds, coordinate by coordinate, the value entered for it, and the value of
/// `before` where none was entered.
pub open spec fn takes_entered(new: Vec3, before: Vec3, e: [Option<F32Bits>; 3]) -> bool {
    &&& (e[0] matches Some(x) ==> new.x == x)
    &&& (e[0] is None ==> new.x == before.x)
    &&& (e[1] matches Some(y) ==> new.y == y)
    &&& (e[1] is None ==> new.y == before.y)
    &&& (e[2] matches Some(z) ==> new.z == z)
    &&& (e[2] is None ==> new.z == before.z)
}

/// Setting a ball vector gives it, in the shown ball, the coordinates entered for that vector
/// and keeps the others; the newest ball gets the same vector; nothing else of either ball
/// changes. Setting all of them sets each vector as setting it alone does.
pub proof fn lemma_ball_setting_sets_what_it_names(cur: BallState, next: BallState, u: UserBallValues)
    ensures
        ({
            let p = ball_set(cur, next, SetBallStateAmount::Pos, u);
            &&& takes_entered(p.0.pos, cur.pos, u.pos)
            &&& p.0 == (BallState { pos: p.0.pos, ..cur })
            &&& p.1 == (BallState { pos: p.0.pos, ..next })
        }),
        ({
            let v = ball_set(cur, next, SetBallStateAmount::Vel, u);
            &&& takes_entered(v.0.vel, cur.vel, u.vel)
            &&& v.0 == (BallState { vel: v.0.vel, ..cur })
            &&& v.1 == (BallState { vel: v.0.vel, ..next })
        }),
        ({
            let w = ball_set(cur, next, SetBallStateAmount::AngVel, u);
            &&& takes_entered(w.0.ang_vel, cur.ang_vel, u.ang_vel)
            &&& w.0 == (BallState { ang_vel: w.0.ang_vel, ..cur })
            &&& w.1 == (BallState { ang_vel: w.0.ang_vel, ..next })
        }),
        ({
            let a = ball_set(cur, next, SetBallStateAmount::All, u);
            let p = ball_set(cur, next, SetBallStateAmount::Pos, u);
            let v = ball_set(cur, next, SetBallStateAmount::Vel, u);
            let w = ball_set(cur, next, SetBallStateAmount::AngVel, u);
            &&& a.0 == (BallState { pos: p.0.pos, vel: v.0.vel, ang_vel: w.0.ang_vel, ..cur })
            &&& a.1 == (BallState { pos: p.0.pos, vel: v.0.vel, ang_vel: w.0.ang_vel, ..next })
        }),
{
}

/// Setting a car's position, velocity or angular velocity gives it, in the shown car, the
/// coordinates entered for that vector and keeps the others; the newest car gets the same
/// vector; nothing else of either car changes. Setting its boost takes the entered boost, or
/// keeps it where none was entered, in both.
#[verifier::spinoff_prover]
#[verifier::rlimit(60)]
pub proof fn lemma_car_setting_sets_what_it_names(cur: CarState, next: CarState, u: UserCarValues)
    ensures
        ({
            let p = car_set(cur, next, SetCarStateAmount::Pos, u);
            &&& takes_entered(p.0.pos, cur.pos, u.pos)
            &&& p.0 == (CarState { pos: p.0.pos, ..cur })
            &&& p.1 == (CarState { pos: p.0.pos, ..next })
        }),
        ({
            let v = car_set(cur, next, SetCarStateAmount::Vel, u);
            &&& takes_entered(v.0.vel, cur.vel, u.vel)
            &&& v.0 == (CarState { vel: v.0.vel, ..cur })
            &&& v.1 == (CarState { vel: v.0.vel, ..next })
        }),
        ({
            let w = car_set(cur, next, SetCarStateAmount::AngVel, u);
            &&& takes_entered(w.0.ang_vel, cur.ang_vel, u.ang_vel)
            &&& w.0 == (CarState { ang_vel: w.0.ang_vel, ..cur })
            &&& w.1 == (CarState { ang_vel: w.0.ang_vel, ..next })
        }),
        ({
            let b = car_set(cur, next, SetCarStateAmount::Boost, u);
            &&& (u.boost matches Some(x) ==> b.0.boost == x)
            &&& (u.boost is None ==> b.0.boost == cur.boost)
            &&& b.0 == (CarState { boost: b.0.boost, ..cur })
            &&& b.1 == (CarState { boost: b.0.boost, ..next })
        }),
{
    lemma_car_pos_names(cur, next, u);
    lemma_car_vel_names(cur, next, u);
    lemma_car_ang_vel_names(cur, next, u);
    lemma_car_boost_names(cur, next, u);
}

/// Setting everything sets a car's position, velocity, angular velocity and boost as setting
/// each alone does, in the shown and the newest car.
#[verifier::spinoff_prover]
#[verifier::rlimit(60)]
pub proof fn lemma_car_setting_all_sets_each(cur: CarState, next: CarState, u: UserCarValues)
    ensures
        ({
            let a = car_set(cur, next, SetCarStateAmount::All, u);
            &&& a.0.pos == car_set(cur, next, SetCarStateAmount::Pos, u).0.pos
            &&& a.0.vel == car_set(cur, next, SetCarStateAmount::Vel, u).0.vel
            &&& a.0.ang_vel == car_set(cur, next, SetCarStateAmount::AngVel, u).0.ang_vel
            &&& a.0.boost == car_set(cur, next, SetCarStateAmount::Boost, u).0.boost
            &&& a.1.pos == a.0.pos
            &&& a.1.vel == a.0.vel
            &&& a.1.ang_vel == a.0.ang_vel
            &&& a.1.boost == a.0.boost
        }),
{
    reveal(car_set);
}

#[verifier::spinoff_prover]
#[verifier::rlimit(60)]
proof fn lemma_car_pos_names(cur: CarState, next: CarState, u: UserCarValues)
    ensures
        ({
            let c = car_set(cur, next, SetCarStateAmount::Pos, u);
            &&& takes_entered(c.0.pos, cur.pos, u.pos)
            &&& c.0 == (CarState { pos: c.0.pos, ..cur })
            &&& c.1 == (CarState { pos: c.0.pos, ..next })
        }),
{
    assert(car_set(cur, next, SetCarStateAmount::Pos, u) == (
        CarState { pos: entered_vec(cur.pos, u.pos), ..cur },
        CarState { pos: entered_vec(cur.pos, u.pos), ..next },
    )) by {
        reveal(car_set);
    }
}

#[verifier::spinoff_prover]
#[verifier::rlimit(60)]
proof fn lemma_car_vel_names(cur: CarState, next: CarState, u: UserCarValues)
    ensures
        ({
            let c = car_set(cur, next, SetCarStateAmount::Vel, u);
            &&& takes_entered(c.0.vel, cur.vel, u.vel)
            &&& c.0 == (CarState { vel: c.0.vel, ..cur })
            &&& c.1 == (CarState { vel: c.0.vel, ..next })
        }),
{
    assert(car_set(cur, next, SetCarStateAmount::Vel, u) == (
        CarState { vel: entered_vec(cur.vel, u.vel), ..cur },
        CarState { vel: entered_vec(cur.vel, u.vel), ..next },
    )) by {
        reveal(car_set);
    }
}

#[verifier::spinoff_prover]
#[verifier::rlimit(60)]
proof fn lemma_car_ang_vel_names(cur: CarState, next: CarState, u: UserCarValues)
    ensures
        ({
            let c = car_set(cur, next, SetCarStateAmount::AngVel, u);
            &&& takes_entered(c.0.ang_vel, cur.ang_vel, u.ang_vel)
            &&& c.0 == (CarState { ang_vel: c.0.ang_vel, ..cur })
            &&& c.1 == (CarState { ang_vel: c.0.ang_vel, ..next })
        }),
{
    assert(car_set(cur, next, SetCarStateAmount::AngVel, u) == (
        CarState { ang_vel: entered_vec(cur.ang_vel, u.ang_vel), ..cur },
        CarState { ang_vel: entered_vec(cur.ang_vel, u.ang_vel), ..next },
    )) by {
        reveal(car_set);
    }
}

#[verifier::spinoff_prover]
#[verifier::rlimit(60)]
proof fn lemma_car_boost_names(cur: CarState, next: CarState, u: UserCarValues)
    ensures
        ({
            let b = car_set(cur, next, SetCarStateAmount::Boost, u);
            &&& (u.boost matches Some(x) ==> b.0.boost == x)
            &&& (u.boost is None ==> b.0.boost == cur.boost)
            &&& b.0 == (CarState { boost: b.0.boost, ..cur })
            &&& b.1 == (CarState { boost: b.0.boost, ..next })
        }),
{
    assert(car_set(cur, next, SetCarStateAmount::Boost, u) == (
        CarState { boost: entered(cur.boost, u.boost), ..cur },
        CarState { boost: entered(cur.boost, u.boost), ..next },
    )) by {
        reveal(car_set);
    }
}


/// Setting a pad: menu index 0 leaves whether it is active, 1 makes it active and any other
/// index inactive; its cooldown takes the entered value, or stays where none was entered. The
/// newest pad gets the same activity and cooldown; nothing else of either pad changes.
pub proof fn lemma_pad_setting_sets_what_it_names(cur: BoostPad, next: BoostPad, u: UserPadValues)
    ensures
        ({
            let p = pad_set(cur, next, u);
            &&& (u.is_active == 0 ==> p.0.state.is_active == cur.state.is_active)
            &&& (u.is_active == 1 ==> p.0.state.is_active)
            &&& (u.is_active >= 2 ==> !p.0.state.is_active)
            &&& (u.cooldown matches Some(x) ==> p.0.state.cooldown == x)
            &&& (u.cooldown is None ==> p.0.state.cooldown == cur.state.cooldown)
            &&& p.0 == (BoostPad {
                state: crate::rocketsim::BoostPadState {
                    is_active: p.0.state.is_active,
                    cooldown: p.0.state.cooldown,
                    ..cur.state
                },
                ..cur
            })
            &&& p.1 == (BoostPad {
                state: crate::rocketsim::BoostPadState {
                    is_active: p.0.state.is_active,
                    cooldown: p.0.state.cooldown,
                    ..next.state
                },
                ..next
            })
        }),
{
}

/// Setting a car's flags: for the jumped flag, menu index 0 leaves each car's own flag and any
/// other index clears it in both; the double-jumped and flipped flags are left or cleared in the
/// shown car in the same way and the newest car gets the shown car's flag. Setting the respawn
/// timer takes the entered time, or keeps it, in both cars, and a time that is not zero (of
/// either sign) marks both demolished.
#[verifier::spinoff_prover]
#[verifier::rlimit(60)]
pub proof fn lemma_car_flags_and_timer(cur: CarState, next: CarState, u: UserCarValues)
    ensures
        ({
            let j = car_set(cur, next, SetCarStateAmount::Jumped, u);
            &&& j.0.has_jumped == (u.has_jumped == 0 && cur.has_jumped)
            &&& j.1.has_jumped == (u.has_jumped == 0 && next.has_jumped)
        }),
        ({
            let d = car_set(cur, next, SetCarStateAmount::DoubleJumped, u);
            &&& d.0.has_double_jumped == (u.has_double_jumped == 0 && cur.has_double_jumped)
            &&& d.1.has_double_jumped == d.0.has_double_jumped
        }),
        ({
            let f = car_set(cur, next, SetCarStateAmount::Flipped, u);
            &&& f.0.has_flipped == (u.has_flipped == 0 && cur.has_flipped)
            &&& f.1.has_flipped == f.0.has_flipped
        }),
        ({
            let t = car_set(cur, next, SetCarStateAmount::DemoRespawnTimer, u);
            &&& (u.demo_respawn_timer matches Some(x) ==> t.0.demo_respawn_timer == x)
            &&& (u.demo_respawn_timer is None ==> t.0.demo_respawn_timer == cur.demo_respawn_timer)
            &&& t.1.demo_respawn_timer == t.0.demo_respawn_timer
            &&& t.0.is_demoed == (cur.is_demoed || t.0.demo_respawn_timer.0 & 0x7fff_ffffu32 != 0)
            &&& t.1.is_demoed == (next.is_demoed || t.0.demo_respawn_timer.0 & 0x7fff_ffffu32 != 0)
        }),
{
    lemma_car_set_jumped(cur, next, u);
    assert(car_set(cur, next, SetCarStateAmount::DoubleJumped, u) == car_set_double_jumped(cur, next, u)) by {
        reveal(car_set);
    }
    assert(car_set(cur, next, SetCarStateAmount::Flipped, u) == car_set_flipped(cur, next, u)) by {
        reveal(car_set);
    }
    assert(car_set(cur, next, SetCarStateAmount::DemoRespawnTimer, u) == car_set_timer(cur, next, u)) by {
        reveal(car_set);
    }
}

} // verus!
