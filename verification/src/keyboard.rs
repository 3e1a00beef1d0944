//! The velocity system: applies the tick's movement command to every entity
//! that the keyboard steers.

use vstd::prelude::*;
use crate::components::{KeyboardControlled, Velocity};
use crate::input::MovementCommand;
use crate::store::{Entity, Storage, join2};

verus! {

/// Speed, in units per tick, of an entity that was told to move.
pub const PLAYER_MOVEMENT_SPEED: i32 = 20;

/// The system that steers velocities by the keyboard.
pub struct Keyboard;

/// The velocity after a command: moving sets the fixed speed and the new
/// direction; stopping sets the speed to zero and keeps the direction.
pub open spec fn steered(command: MovementCommand, velocity: Velocity) -> Velocity {
    match command {
        MovementCommand::Move(direction) => Velocity { speed: PLAYER_MOVEMENT_SPEED, direction },
        MovementCommand::Stop => Velocity { speed: 0, direction: velocity.direction },
    }
}

/// The velocities after the system ran: with a command, every steered entity
/// has its velocity replaced by the steered one; all else stays.
pub open spec fn steered_all(
    command: Option<MovementCommand>,
    controlled: Set<Entity>,
    velocities: Map<Entity, Velocity>,
) -> Map<Entity, Velocity> {
    match command {
        Some(command) => Map::new(
            |id: Entity| velocities.contains_key(id),
            |id: Entity|
                if controlled.contains(id) {
                    steered(command, velocities[id])
                } else {
                    velocities[id]
                },
        ),
        None => velocities,
    }
}

impl Keyboard {
    /// The velocity that `command` makes of `velocity`.
    pub fn steer(command: MovementCommand, velocity: Velocity) -> (v: Velocity)
        ensures
            v == steered(command, velocity),
    {
        match command {
            MovementCommand::Move(direction) => Velocity {
                speed: PLAYER_MOVEMENT_SPEED,
                direction,
            },
            MovementCommand::Stop => Velocity { speed: 0, direction: velocity.direction },
        }
    }

    /// Applies the tick's command, if there is one, to the velocity of every
    /// entity that carries the keyboard marker. Entities without the marker,
    /// and all velocities in a tick without a command, stay as they are.
    pub fn run(
        &mut self,
        movement_command: &Option<MovementCommand>,
        controlled: &Storage<KeyboardControlled>,
        velocities: &mut Storage<Velocity>,
    )
        requires
            controlled.wf(),
            old(velocities).wf(),
        ensures
            final(velocities).wf(),
            final(velocities)@ == steered_all(
                *movement_command,
                controlled@.dom(),
                old(velocities)@,
            ),
    {
        let command: MovementCommand = match movement_command {
            Some(command) => *command,
            None => {
                return ;
            },
        };
        let ids = join2(controlled, velocities);
        let mut i: usize = 0;
        while i < ids.len()
            invariant
                0 <= i <= ids@.len(),
                crate::store::ascending(ids@),
                forall|id: Entity|
                    ids@.contains(id) <==> (controlled@.contains_key(id) && old(
                        velocities,
                    )@.contains_key(id)),
                velocities.wf(),
                velocities@.dom() == old(velocities)@.dom(),
                forall|id: Entity| #[trigger]
                    velocities@.contains_key(id) ==> velocities@[id] == if ids@.take(
                        i as int,
                    ).contains(id) {
                        steered(command, old(velocities)@[id])
                    } else {
                        old(velocities)@[id]
                    },
            decreases ids@.len() - i,
        {
            let id: Entity = ids[i];
            assert(ids@.contains(id));
            proof {
                velocities.lemma_entities_bounded();
                if ids@.take(i as int).contains(id) {
                    let j = choose|j: int| 0 <= j < i && ids@.take(i as int)[j] == id;
                    assert(ids@[j] == ids@[i as int]);
                }
            }
            let current: Velocity = *velocities.get(id).unwrap();
            let ghost before = velocities@;
            let _ = velocities.insert(id, Keyboard::steer(command, current));
            proof {
                assert(velocities@.dom() =~= before.dom());
                assert forall|e: Entity| #[trigger] velocities@.contains_key(e) implies velocities@[e]
                    == if ids@.take(i + 1).contains(e) {
                    steered(command, old(velocities)@[e])
                } else {
                    old(velocities)@[e]
                } by {
                    let shorter = ids@.take(i as int);
                    let longer = ids@.take(i + 1);
                    assert(longer[i as int] == id);
                    if e == id {
                        assert(longer.contains(e));
                    } else {
                        if shorter.contains(e) {
                            let j = choose|j: int| 0 <= j < i && shorter[j] == e;
                            assert(longer[j] == e);
                        }
                        if longer.contains(e) {
                            let j = choose|j: int| 0 <= j < i + 1 && longer[j] == e;
                            assert(shorter[j] == e);
                        }
                    }
                }
            }
            i = i + 1;
        }
        proof {
            assert(ids@.take(ids@.len() as int) =~= ids@);
            assert(velocities@ =~= steered_all(
                *movement_command,
                controlled@.dom(),
                old(velocities)@,
            ));
        }
    }
}

} // verus!
