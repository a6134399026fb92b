//! What the camera follows, and which car that is: the number keys pick the n-th car in order
//! of car ids, 9 the director and 0 the free camera.
use crate::rocketsim::CarInfo;
use vstd::prelude::*;

verus! {

/// What the camera follows.
#[derive(Clone, Copy, Debug, PartialEq, Eq, Structural)]
pub enum PrimaryCamera {
    /// The free camera.
    Spectator,
    /// The car nearest the ball, last found to be the car with this id (0 for none yet).
    Director(u32),
    /// The n-th car in order of car ids, counting from 1.
    TrackCar(u32),
}

impl Default for PrimaryCamera {
    fn default() -> (r: Self)
        ensures
            r == PrimaryCamera::Spectator,
    {
        PrimaryCamera::Spectator
    }
}

/// A number key, on the main keyboard or on the number pad.
#[derive(Clone, Copy, Debug, PartialEq, Eq, Structural)]
pub enum NumberKey {
    Digit(u8),
    Numpad(u8),
}

/// The camera that a number key picks, on either keyboard: 1 to 8 follow that car, 9 the
/// director, 0 the free camera.
pub open spec fn camera_of_key(key: NumberKey) -> Option<PrimaryCamera> {
    let d = match key {
        NumberKey::Digit(d) => d,
        NumberKey::Numpad(d) => d,
    };
    if 1 <= d <= 8 {
        Some(PrimaryCamera::TrackCar(d as u32))
    } else if d == 9 {
        Some(PrimaryCamera::Director(0))
    } else if d == 0 {
        Some(PrimaryCamera::Spectator)
    } else {
        None
    }
}

/// The camera that a number key picks, as `camera_of_key` says.
pub fn camera_for_key(key: NumberKey) -> (r: Option<PrimaryCamera>)
    ensures
        r == camera_of_key(key),
{
    let d = match key {
        NumberKey::Digit(d) => d,
        NumberKey::Numpad(d) => d,
    };
    if 1 <= d && d <= 8 {
        Some(PrimaryCamera::TrackCar(d as u32))
    } else if d == 9 {
        Some(PrimaryCamera::Director(0))
    } else if d == 0 {
        Some(PrimaryCamera::Spectator)
    } else {
        None
    }
}

/// Whether the ids are in increasing order (equal ids next to each other).
pub open spec fn ascending(s: Seq<u32>) -> bool {
    forall|i: int, j: int| 0 <= i <= j < s.len() ==> s[i] <= s[j]
}

/// `slice::sort` on car ids: afterwards the ids are the same ones, in increasing order.
#[verifier::external_body]
fn sort_ids(ids: &mut Vec<u32>)
    ensures
        final(ids)@.to_multiset() == old(ids)@.to_multiset(),
        ascending(final(ids)@),
{
    ids.sort();
}

/// The ids of the cars, in increasing order.
pub fn sorted_car_ids(cars: &[CarInfo]) -> (r: Vec<u32>)
    ensures
        r@.to_multiset() == cars@.map_values(|c: CarInfo| c.id).to_multiset(),
        ascending(r@),
{
    let mut ids: Vec<u32> = Vec::with_capacity(cars.len());
    let mut i: usize = 0;
    while i < cars.len()
        invariant
            i <= cars@.len(),
            ids@ == cars@.map_values(|c: CarInfo| c.id).take(i as int),
        decreases cars@.len() - i,
    {
        ids.push(cars[i].id);
        i += 1;
        assert(ids@ =~= cars@.map_values(|c: CarInfo| c.id).take(i as int));
    }
    assert(cars@.map_values(|c: CarInfo| c.id).take(i as int) =~= cars@.map_values(|c: CarInfo| c.id));
    sort_ids(&mut ids);
    ids
}

/// The `n`-th of the ascending ids, counting from 1; `None` where there are fewer ids, or for
/// `n` of 0.
pub open spec fn nth_id(sorted: Seq<u32>, n: u32) -> Option<u32> {
    if 1 <= n && n <= sorted.len() {
        Some(sorted[n - 1])
    } else {
        None
    }
}

/// The id of the car that `TrackCar(n)` follows: the `n`-th in order of car ids; `None` where
/// there are fewer cars, or for `n` of 0.
pub fn tracked_car_id(n: u32, cars: &[CarInfo]) -> (r: Option<u32>)
    ensures
        ({
            let ids = sorted_car_ids_spec(cars@);
            r == nth_id(ids, n)
        }),
{
    let ids = sorted_car_ids(cars);
    proof {
        lemma_sorted_ids_unique(ids@, cars@);
    }
    if n >= 1 && (n as usize) <= ids.len() {
        Some(ids[(n - 1) as usize])
    } else {
        None
    }
}

/// The car ids in increasing order.
pub open spec fn sorted_car_ids_spec(cars: Seq<CarInfo>) -> Seq<u32> {
    choose|s: Seq<u32>| s.to_multiset() == cars.map_values(|c: CarInfo| c.id).to_multiset() && ascending(s)
}

/// There is one ascending order of the car ids, so the ids that were sorted are that order.
proof fn lemma_sorted_ids_unique(s: Seq<u32>, cars: Seq<CarInfo>)
    requires
        s.to_multiset() == cars.map_values(|c: CarInfo| c.id).to_multiset(),
        ascending(s),
    ensures
        sorted_car_ids_spec(cars) == s,
{
    let t = sorted_car_ids_spec(cars);
    assert(exists|u: Seq<u32>| u.to_multiset() == cars.map_values(|c: CarInfo| c.id).to_multiset() && ascending(u));
    lemma_ascending_unique(s, t);
}

/// Two ascending orderings of the same ids are the same.
proof fn lemma_ascending_unique(s: Seq<u32>, t: Seq<u32>)
    requires
        s.to_multiset() == t.to_multiset(),
        ascending(s),
        ascending(t),
    ensures
        s == t,
    decreases s.len(),
{
    broadcast use vstd::seq_lib::group_to_multiset_ensures;

    assert(s.len() == s.to_multiset().len());
    assert(t.len() == t.to_multiset().len());
    if s.len() > 0 {
        let a = s.last();
        let b = t.last();
        assert(t.to_multiset().count(a) > 0);
        assert(s.to_multiset().count(b) > 0);
        assert(t.contains(a));
        assert(s.contains(b));
        let i = choose|i: int| 0 <= i < t.len() && t[i] == a;
        let j = choose|j: int| 0 <= j < s.len() && s[j] == b;
        assert(a <= b);
        assert(b <= a);
        assert(s.drop_last().to_multiset() == s.to_multiset().remove(a)) by {
            assert(s =~= s.drop_last().push(a));
        }
        assert(t.drop_last().to_multiset() == t.to_multiset().remove(b)) by {
            assert(t =~= t.drop_last().push(b));
        }
        lemma_ascending_unique(s.drop_last(), t.drop_last());
        assert(s =~= s.drop_last().push(a));
        assert(t =~= t.drop_last().push(b));
    } else {
        assert(s =~= t);
    }
}

/// The id of the car whose boost the meter shows: for `TrackCar(n)` the `n`-th in order of car
/// ids, or 0 where there is none; for the director its car; 0 for the free camera, which shows
/// no meter. `None`, leaving the meter as it is, while a car is followed and there are no cars.
pub fn boost_meter_car_id(camera: PrimaryCamera, cars: &[CarInfo]) -> (r: Option<u32>)
    ensures
        r == match camera {
            PrimaryCamera::TrackCar(n) => if cars@.len() == 0 {
                None
            } else {
                Some(
                    match nth_id(sorted_car_ids_spec(cars@), n) {
                        Some(id) => id,
                        None => 0,
                    },
                )
            },
            PrimaryCamera::Director(id) => Some(id),
            PrimaryCamera::Spectator => Some(0u32),
        },
{
    match camera {
        PrimaryCamera::TrackCar(n) => {
            if cars.len() == 0 {
                return None;
            }
            match tracked_car_id(n, cars) {
                Some(id) => Some(id),
                None => Some(0),
            }
        },
        PrimaryCamera::Director(id) => Some(id),
        PrimaryCamera::Spectator => Some(0),
    }
}


/// The camera after the settings chose `chosen` while `current` was in use: choosing the
/// director with no car yet keeps a director that already follows a car; any other choice is
/// taken as it is.
pub fn camera_after_choice(current: PrimaryCamera, chosen: PrimaryCamera) -> (r: PrimaryCamera)
    ensures
        r == if chosen == PrimaryCamera::Director(0) && current is Director {
            current
        } else {
            chosen
        },
{
    if chosen == PrimaryCamera::Director(0) {
        if let PrimaryCamera::Director(_) = current {
            return current;
        }
    }
    chosen
}


/// The two keyboards agree: a digit on the number pad picks what the same digit on the main
/// keyboard picks. Keys 1 to 8 follow the car of that number, 9 the director with no car yet,
/// 0 the free camera, and no other key picks a camera.
pub proof fn lemma_number_keys(d: u8)
    ensures
        camera_of_key(NumberKey::Numpad(d)) == camera_of_key(NumberKey::Digit(d)),
        1 <= d <= 8 ==> camera_of_key(NumberKey::Digit(d)) == Some(PrimaryCamera::TrackCar(d as u32)),
        d == 9 ==> camera_of_key(NumberKey::Digit(d)) == Some(PrimaryCamera::Director(0)),
        d == 0 ==> camera_of_key(NumberKey::Digit(d)) == Some(PrimaryCamera::Spectator),
        d > 9 ==> camera_of_key(NumberKey::Digit(d)) is None,
{
}

} // verus!
