//! The oscillating platforms: each keeps its own phase and remembers by how
//! much it moved in the current tick, so that an actor riding it can be moved
//! by exactly as much.

use crate::entity::EntityId;
use crate::ground::{
    find_ground, first_ground, is_first_ground, is_ground, Ground, Grounded, GroundedState,
};
use crate::timer::RepeatingTimer;
use vstd::prelude::*;

verus! {

/// Period of the platforms' waveform in nanoseconds: the seconds of one full
/// turn of the sine.
pub const OSCILLATION_PERIOD: u64 = 6_283_185_307;

/// A platform that moves up and down. `D` is the type of a displacement; the
/// library stores and hands on such values and never computes with them.
pub struct Cubeovator<D> {
    /// The body of the platform.
    pub entity: EntityId,
    /// Time into the current period of the waveform.
    pub phase: RepeatingTimer,
    /// By how much the platform moved in the latest tick.
    pub oscillator: D,
}

impl<D> Cubeovator<D> {
    /// A platform at the start of its period, with `rest` as the displacement
    /// of a tick in which it did not move.
    pub fn new(entity: EntityId, rest: D) -> (cube: Cubeovator<D>)
        ensures
            cube.entity == entity,
            cube.phase == (RepeatingTimer { duration: OSCILLATION_PERIOD, elapsed: 0 }),
            cube.oscillator == rest,
    {
        Cubeovator { entity, phase: RepeatingTimer::new(OSCILLATION_PERIOD), oscillator: rest }
    }
}

/// Whether `index` is the first place in `cubes` that holds the platform
/// `entity`.
pub open spec fn is_first_cube<D>(cubes: Seq<Cubeovator<D>>, entity: EntityId, index: int) -> bool {
    &&& 0 <= index < cubes.len()
    &&& cubes[index].entity == entity
    &&& forall|j: int| 0 <= j < index ==> (#[trigger] cubes[j]).entity != entity
}

/// Whether `entity` is one of the platforms.
pub open spec fn is_cube<D>(cubes: Seq<Cubeovator<D>>, entity: EntityId) -> bool {
    exists|i: int| 0 <= i < cubes.len() && (#[trigger] cubes[i]).entity == entity
}

/// The place of the first record of the platform `entity`.
pub open spec fn first_cube<D>(cubes: Seq<Cubeovator<D>>, entity: EntityId) -> int {
    choose|i: int| is_first_cube(cubes, entity, i)
}

/// Looks the platform `entity` up and gives the place of its first record.
pub fn find_cube<D>(cubes: &Vec<Cubeovator<D>>, entity: EntityId) -> (found: Option<usize>)
    ensures
        found matches Some(index) ==> is_first_cube(cubes@, entity, index as int) && index
            == first_cube(cubes@, entity),
        found is None <==> !is_cube(cubes@, entity),
{
    let mut i: usize = 0;
    while i < cubes.len()
        invariant
            i <= cubes.len(),
            forall|j: int| 0 <= j < i ==> (#[trigger] cubes[j]).entity != entity,
        decreases cubes.len() - i,
    {
        if cubes[i].entity == entity {
            assert(is_first_cube(cubes@, entity, i as int));
            return Some(i);
        }
        i = i + 1;
    }
    None
}

/// The platform that carries the actor: the one that owns the single ground
/// the actor stands on. An actor that counts no contact or several, or stands
/// on a ground that no platform owns, is not carried.
pub open spec fn carrier<D>(
    state: GroundedState,
    grounds: Seq<Ground>,
    cubes: Seq<Cubeovator<D>>,
) -> Option<Cubeovator<D>> {
    match state.exclusive_ground() {
        Some(ground) => if is_ground(grounds, ground) {
            match grounds[first_ground(grounds, ground)].parent {
                Some(owner) => if is_cube(cubes, owner) {
                    Some(cubes[first_cube(cubes, owner)])
                } else {
                    None
                },
                None => None,
            }
        } else {
            None
        },
        None => None,
    }
}

/// By how much the actor is carried in this tick: the displacement of the
/// platform that carries it, as that platform recorded it.
pub open spec fn carry<D>(
    state: GroundedState,
    grounds: Seq<Ground>,
    cubes: Seq<Cubeovator<D>>,
) -> Option<D> {
    match carrier(state, grounds, cubes) {
        Some(cube) => Some(cube.oscillator),
        None => None,
    }
}

/// Reads the displacement that carries the actor in this tick.
pub fn carried_displacement<D: Copy>(
    grounded: &Grounded,
    grounds: &Vec<Ground>,
    cubes: &Vec<Cubeovator<D>>,
) -> (displacement: Option<D>)
    ensures
        displacement == carry(grounded@, grounds@, cubes@),
{
    let Some(ground) = grounded.exclusive_ground() else {
        return None;
    };
    let Some(at) = find_ground(grounds, ground) else {
        return None;
    };
    let Some(owner) = grounds[at].parent else {
        return None;
    };
    let Some(place) = find_cube(cubes, owner) else {
        return None;
    };
    Some(cubes[place].oscillator)
}

/// Advances every platform by one tick of `delta` nanoseconds: its phase
/// moves on, wrapping at the period, and its displacement for this tick is
/// what `waveform` gives for the new phase. The displacement is stored with
/// the platform, so whoever moves the platform and whoever carries its rider
/// read one and the same value.
pub fn move_cubes<D, F: Fn(u64) -> D>(cubes: &mut Vec<Cubeovator<D>>, delta: u64, waveform: F)
    requires
        forall|phase: u64| call_requires(waveform, (phase,)),
    ensures
        final(cubes)@.len() == old(cubes)@.len(),
        forall|i: int|
            0 <= i < old(cubes)@.len() ==> {
                let before = old(cubes)@[i];
                let after = #[trigger] final(cubes)@[i];
                &&& after.entity == before.entity
                &&& after.phase == before.phase.after(delta)
                &&& call_ensures(waveform, (after.phase.elapsed,), after.oscillator)
            },
{
    let mut i: usize = 0;
    while i < cubes.len()
        invariant
            i <= cubes.len(),
            cubes@.len() == old(cubes)@.len(),
            forall|phase: u64| call_requires(waveform, (phase,)),
            forall|j: int| i <= j < cubes@.len() ==> cubes@[j] == old(cubes)@[j],
            forall|j: int|
                0 <= j < i ==> {
                    let before = old(cubes)@[j];
                    let after = #[trigger] cubes@[j];
                    &&& after.entity == before.entity
                    &&& after.phase == before.phase.after(delta)
                    &&& call_ensures(waveform, (after.phase.elapsed,), after.oscillator)
                },
        decreases cubes.len() - i,
    {
        let entity = cubes[i].entity;
        let mut phase = cubes[i].phase;
        phase.tick(delta);
        let oscillator = waveform(phase.elapsed);
        cubes.set(i, Cubeovator { entity, phase, oscillator });
        i = i + 1;
    }
}

/// An actor that stands on a single ground owned by a platform is carried by
/// exactly the displacement that the platform recorded for the tick, which is
/// the one its own motion is read from. No other platform and no other ground
/// has a part in it.
pub proof fn lemma_rider_moves_with_platform<D>(
    state: GroundedState,
    grounds: Seq<Ground>,
    cubes: Seq<Cubeovator<D>>,
    ground: EntityId,
    at: int,
    place: int,
)
    requires
        state.exclusive_ground() == Some(ground),
        is_first_ground(grounds, ground, at),
        grounds[at].parent is Some,
        is_first_cube(cubes, grounds[at].parent->0, place),
    ensures
        carrier(state, grounds, cubes) == Some(cubes[place]),
        carry(state, grounds, cubes) == Some(cubes[place].oscillator),
{
    let owner = grounds[at].parent->0;
    assert(is_first_ground(grounds, ground, first_ground(grounds, ground)));
    assert(first_ground(grounds, ground) == at);
    assert(is_first_cube(cubes, owner, first_cube(cubes, owner)));
    assert(first_cube(cubes, owner) == place);
}

/// A platform that is listed has a first record.
pub proof fn lemma_first_cube_exists<D>(cubes: Seq<Cubeovator<D>>, entity: EntityId)
    requires
        is_cube(cubes, entity),
    ensures
        is_first_cube(cubes, entity, first_cube(cubes, entity)),
{
    let some = choose|i: int| 0 <= i < cubes.len() && (#[trigger] cubes[i]).entity == entity;
    let first = lemma_first_cube_before(cubes, entity, some);
    assert(is_first_cube(cubes, entity, first));
}

/// Among the records up to one that holds `entity`, there is a first that
/// holds it.
proof fn lemma_first_cube_before<D>(cubes: Seq<Cubeovator<D>>, entity: EntityId, at: int) -> (first:
    int)
    requires
        0 <= at < cubes.len(),
        cubes[at].entity == entity,
    ensures
        is_first_cube(cubes, entity, first),
    decreases at,
{
    if exists|j: int| 0 <= j < at && (#[trigger] cubes[j]).entity == entity {
        let earlier = choose|j: int| 0 <= j < at && (#[trigger] cubes[j]).entity == entity;
        lemma_first_cube_before(cubes, entity, earlier)
    } else {
        at
    }
}

/// After the platforms have moved, the rider of a platform is carried by a
/// value that the waveform gave for that platform's new phase: the platform
/// and its rider move by one and the same displacement.
pub proof fn lemma_carry_is_the_wave_of_the_tick<D, F: Fn(u64) -> D>(
    state: GroundedState,
    grounds: Seq<Ground>,
    before: Seq<Cubeovator<D>>,
    after: Seq<Cubeovator<D>>,
    delta: u64,
    waveform: F,
)
    requires
        after.len() == before.len(),
        forall|i: int|
            0 <= i < before.len() ==> {
                &&& (#[trigger] after[i]).entity == before[i].entity
                &&& after[i].phase == before[i].phase.after(delta)
                &&& call_ensures(waveform, (after[i].phase.elapsed,), after[i].oscillator)
            },
        carrier(state, grounds, before) is Some,
    ensures
        carrier(state, grounds, after) is Some,
        carrier(state, grounds, after)->0.entity == carrier(state, grounds, before)->0.entity,
        carrier(state, grounds, after)->0.phase == carrier(state, grounds, before)->0.phase.after(
            delta,
        ),
        call_ensures(
            waveform,
            (carrier(state, grounds, after)->0.phase.elapsed,),
            carry(state, grounds, after)->0,
        ),
{
    let ground = state.exclusive_ground()->0;
    assert(is_ground(grounds, ground));
    let owner = grounds[first_ground(grounds, ground)].parent->0;
    let place = first_cube(before, owner);
    assert(is_cube(before, owner));
    lemma_first_cube_exists(before, owner);
    assert(is_cube(after, owner)) by {
        assert(after[place].entity == owner);
    }
    assert(is_first_cube(after, owner, place)) by {
        assert(after[place].entity == owner);
        assert forall|j: int| 0 <= j < place implies (#[trigger] after[j]).entity != owner by {
            assert(before[j].entity != owner);
        }
    }
    assert(is_first_cube(after, owner, first_cube(after, owner)));
    assert(first_cube(after, owner) == place);
}

} // verus!
