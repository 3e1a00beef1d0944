//! The physics system: moves every entity by its velocity.

use vstd::prelude::*;
use crate::components::{Direction, Position, Velocity};
use crate::store::{Entity, Storage, join2};

verus! {

/// The system that integrates positions.
pub struct Physics;

/// How far one tick carries an entity along each axis: the speed, to the
/// left or upwards counted negative.
pub open spec fn offset(velocity: Velocity) -> (int, int) {
    match velocity.direction {
        Direction::Left => (-velocity.speed, 0),
        Direction::Right => (velocity.speed as int, 0),
        Direction::Up => (0, -velocity.speed),
        Direction::Down => (0, velocity.speed as int),
    }
}

/// The place one tick leads to can be written in `i32` coordinates.
pub open spec fn can_move(position: Position, velocity: Velocity) -> bool {
    &&& i32::MIN <= position.x + offset(velocity).0 <= i32::MAX
    &&& i32::MIN <= position.y + offset(velocity).1 <= i32::MAX
}

/// The place one tick leads to.
pub open spec fn moved(position: Position, velocity: Velocity) -> Position {
    Position {
        x: (position.x + offset(velocity).0) as i32,
        y: (position.y + offset(velocity).1) as i32,
    }
}

/// The place a number of ticks at one velocity lead to.
pub open spec fn moved_times(position: Position, velocity: Velocity, ticks: nat) -> Position
    decreases ticks,
{
    if ticks == 0 {
        position
    } else {
        moved(moved_times(position, velocity, (ticks - 1) as nat), velocity)
    }
}

/// Every entity that has both a position and a velocity can make its move.
pub open spec fn can_move_all(
    positions: Map<Entity, Position>,
    velocities: Map<Entity, Velocity>,
) -> bool {
    forall|id: Entity|
        positions.contains_key(id) && velocities.contains_key(id) ==> can_move(
            #[trigger] positions[id],
            velocities[id],
        )
}

/// The positions after the system ran: every entity with a velocity has
/// moved, all else stays.
pub open spec fn moved_all(
    positions: Map<Entity, Position>,
    velocities: Map<Entity, Velocity>,
) -> Map<Entity, Position> {
    Map::new(
        |id: Entity| positions.contains_key(id),
        |id: Entity|
            if velocities.contains_key(id) {
                moved(positions[id], velocities[id])
            } else {
                positions[id]
            },
    )
}

/// An entity at rest stays where it is, however many ticks pass.
pub proof fn lemma_rest_keeps_position(position: Position, velocity: Velocity, ticks: nat)
    requires
        velocity.speed == 0,
    ensures
        moved_times(position, velocity, ticks) == position,
    decreases ticks,
{
    if ticks > 0 {
        lemma_rest_keeps_position(position, velocity, (ticks - 1) as nat);
    }
}

/// Where no entity that has a position moves, the system changes nothing.
pub proof fn lemma_rest_keeps_all(
    positions: Map<Entity, Position>,
    velocities: Map<Entity, Velocity>,
)
    requires
        forall|id: Entity|
            positions.contains_key(id) && velocities.contains_key(id) ==> (
            #[trigger] velocities[id]).speed == 0,
    ensures
        moved_all(positions, velocities) == positions,
{
    assert(moved_all(positions, velocities) =~= positions);
}

impl Physics {
    /// Whether the move from `position` at `velocity` stays within `i32`.
    pub fn can_step(position: Position, velocity: Velocity) -> (ok: bool)
        ensures
            ok == can_move(position, velocity),
    {
        let s: i64 = velocity.speed as i64;
        let x: i64 = position.x as i64;
        let y: i64 = position.y as i64;
        let low: i64 = -2147483648;
        let high: i64 = 2147483647;
        match velocity.direction {
            Direction::Left => low <= x - s && x - s <= high,
            Direction::Right => low <= x + s && x + s <= high,
            Direction::Up => low <= y - s && y - s <= high,
            Direction::Down => low <= y + s && y + s <= high,
        }
    }

    /// Moves a position by one tick: by the speed to the left, to the right,
    /// up or down, as the direction says. A speed of zero moves nothing.
    pub fn step(position: Position, velocity: Velocity) -> (next: Position)
        requires
            can_move(position, velocity),
        ensures
            next.x == position.x + offset(velocity).0,
            next.y == position.y + offset(velocity).1,
            next == moved(position, velocity),
            velocity.speed == 0 ==> next == position,
    {
        match velocity.direction {
            Direction::Left => Position { x: position.x - velocity.speed, y: position.y },
            Direction::Right => Position { x: position.x + velocity.speed, y: position.y },
            Direction::Up => Position { x: position.x, y: position.y - velocity.speed },
            Direction::Down => Position { x: position.x, y: position.y + velocity.speed },
        }
    }

    /// Whether every entity with a position and a velocity can make its move.
    pub fn can_run(positions: &Storage<Position>, velocities: &Storage<Velocity>) -> (ok: bool)
        requires
            positions.wf(),
            velocities.wf(),
        ensures
            ok == can_move_all(positions@, velocities@),
    {
        let ids = join2(positions, velocities);
        let mut i: usize = 0;
        while i < ids.len()
            invariant
                0 <= i <= ids@.len(),
                positions.wf(),
                velocities.wf(),
                forall|id: Entity|
                    ids@.contains(id) <==> (positions@.contains_key(id)
                        && velocities@.contains_key(id)),
                forall|j: int|
                    0 <= j < i ==> can_move(
                        positions@[#[trigger] ids@[j]],
                        velocities@[ids@[j]],
                    ),
            decreases ids@.len() - i,
        {
            let id: Entity = ids[i];
            assert(ids@.contains(id));
            let position: Position = *positions.get(id).unwrap();
            let velocity: Velocity = *velocities.get(id).unwrap();
            if !Physics::can_step(position, velocity) {
                return false;
            }
            i = i + 1;
        }
        assert forall|id: Entity|
            positions@.contains_key(id) && velocities@.contains_key(id) implies can_move(
            #[trigger] positions@[id],
            velocities@[id],
        ) by {
            assert(ids@.contains(id));
            let j = choose|j: int| 0 <= j < ids@.len() && ids@[j] == id;
            assert(can_move(positions@[ids@[j]], velocities@[ids@[j]]));
        }
        true
    }

    /// Moves every entity that has both a position and a velocity by one
    /// tick. Positions of entities without a velocity stay.
    pub fn run(&mut self, positions: &mut Storage<Position>, velocities: &Storage<Velocity>)
        requires
            old(positions).wf(),
            velocities.wf(),
            can_move_all(old(positions)@, velocities@),
        ensures
            final(positions).wf(),
            final(positions)@ == moved_all(old(positions)@, velocities@),
    {
        let ids = join2(positions, velocities);
        let mut i: usize = 0;
        while i < ids.len()
            invariant
                0 <= i <= ids@.len(),
                crate::store::ascending(ids@),
                forall|id: Entity|
                    ids@.contains(id) <==> (old(positions)@.contains_key(id)
                        && velocities@.contains_key(id)),
                can_move_all(old(positions)@, velocities@),
                velocities.wf(),
                positions.wf(),
                positions@.dom() == old(positions)@.dom(),
                forall|id: Entity| #[trigger]
                    positions@.contains_key(id) ==> positions@[id] == if ids@.take(
                        i as int,
                    ).contains(id) {
                        moved(old(positions)@[id], velocities@[id])
                    } else {
                        old(positions)@[id]
                    },
            decreases ids@.len() - i,
        {
            let id: Entity = ids[i];
            assert(ids@.contains(id));
            proof {
                positions.lemma_entities_bounded();
                if ids@.take(i as int).contains(id) {
                    let j = choose|j: int| 0 <= j < i && ids@.take(i as int)[j] == id;
                    assert(ids@[j] == ids@[i as int]);
                }
            }
            let position: Position = *positions.get(id).unwrap();
            let velocity: Velocity = *velocities.get(id).unwrap();
            assert(can_move(old(positions)@[id], velocities@[id]));
            let ghost before = positions@;
            let _ = positions.insert(id, Physics::step(position, velocity));
            proof {
                assert(positions@.dom() =~= before.dom());
                assert forall|e: Entity| #[trigger] positions@.contains_key(e) implies positions@[e]
                    == if ids@.take(i + 1).contains(e) {
                    moved(old(positions)@[e], velocities@[e])
                } else {
                    old(positions)@[e]
                } by {
                    let shorter = ids@.take(i as int);
                    let longer = ids@.take(i + 1);
                    assert(longer[i as int] == id);
                    if e == id {
                        assert(longer.contains(e));
                    } else {
                        if shorter.contains(e) {
                            let j = choose|j: int| 0 <= j < i && shorter[j] == e;
                            assert(longer[j] == e);
                        }
                        if longer.contains(e) {
                            let j = choose|j: int| 0 <= j < i + 1 && longer[j] == e;
                            assert(shorter[j] == e);
                        }
                    }
                }
            }
            i = i + 1;
        }
        proof {
            assert(ids@.take(ids@.len() as int) =~= ids@);
            assert(positions@ =~= moved_all(old(positions)@, velocities@));
        }
    }
}

} // verus!
