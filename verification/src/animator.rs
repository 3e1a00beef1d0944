//! The animation system: advances each entity's frame and picks the sprite
//! that matches its direction and speed.

use vstd::prelude::*;
use crate::components::{MovementAnimation, Sprite, Velocity};
use crate::store::{Entity, Storage, join3};

verus! {

/// The system that animates moving entities.
pub struct Animator;

/// The frame shown after a tick: the first one at rest, else the one after
/// the current, starting over behind the last.
pub open spec fn next_frame(animation: MovementAnimation, velocity: Velocity) -> int {
    if velocity.speed == 0 {
        0
    } else {
        (animation.current_frame + 1) % (animation.frames(velocity.direction).len() as int)
    }
}

/// The animation after a tick: the same sequences, showing the next frame.
pub open spec fn animated(animation: MovementAnimation, velocity: Velocity) -> MovementAnimation {
    MovementAnimation { current_frame: next_frame(animation, velocity) as usize, ..animation }
}

/// The sprite shown after a tick: the next frame of the sequence of the
/// direction that the entity faces.
pub open spec fn shown(animation: MovementAnimation, velocity: Velocity) -> Sprite {
    animation.frames(velocity.direction)[next_frame(animation, velocity)]
}

/// The animation after one tick at each of the given velocities in turn.
pub open spec fn animated_through(
    animation: MovementAnimation,
    velocities: Seq<Velocity>,
) -> MovementAnimation
    decreases velocities.len(),
{
    if velocities.len() == 0 {
        animation
    } else {
        animated(animated_through(animation, velocities.drop_last()), velocities.last())
    }
}

/// Whether the system animates the entity: it has a velocity, an animation
/// and a sprite.
pub open spec fn is_animated(
    id: Entity,
    animations: Map<Entity, MovementAnimation>,
    sprites: Map<Entity, Sprite>,
    velocities: Map<Entity, Velocity>,
) -> bool {
    velocities.contains_key(id) && animations.contains_key(id) && sprites.contains_key(id)
}

/// The animations after the system ran.
pub open spec fn animated_all(
    animations: Map<Entity, MovementAnimation>,
    sprites: Map<Entity, Sprite>,
    velocities: Map<Entity, Velocity>,
) -> Map<Entity, MovementAnimation> {
    Map::new(
        |id: Entity| animations.contains_key(id),
        |id: Entity|
            if is_animated(id, animations, sprites, velocities) {
                animated(animations[id], velocities[id])
            } else {
                animations[id]
            },
    )
}

/// The sprites after the system ran.
pub open spec fn shown_all(
    animations: Map<Entity, MovementAnimation>,
    sprites: Map<Entity, Sprite>,
    velocities: Map<Entity, Velocity>,
) -> Map<Entity, Sprite> {
    Map::new(
        |id: Entity| sprites.contains_key(id),
        |id: Entity|
            if is_animated(id, animations, sprites, velocities) {
                shown(animations[id], velocities[id])
            } else {
                sprites[id]
            },
    )
}

/// Every animation of the map is well formed.
pub open spec fn all_wf(animations: Map<Entity, MovementAnimation>) -> bool {
    forall|id: Entity| animations.contains_key(id) ==> (#[trigger] animations[id]).wf()
}

/// A tick leaves the frame index inside the sequences, whatever the
/// direction and the speed.
pub proof fn lemma_frame_in_range(animation: MovementAnimation, velocity: Velocity)
    requires
        animation.wf(),
    ensures
        0 <= next_frame(animation, velocity) < animation.sequence_len(),
        animated(animation, velocity).wf(),
        animated(animation, velocity).sequence_len() == animation.sequence_len(),
        forall|d: crate::components::Direction|
            animated(animation, velocity).frames(d) == animation.frames(d),
{
}

/// The frame index stays inside the sequences through any number of ticks
/// at any velocities.
pub proof fn lemma_frame_stays_in_range(animation: MovementAnimation, velocities: Seq<Velocity>)
    requires
        animation.wf(),
    ensures
        animated_through(animation, velocities).wf(),
        animated_through(animation, velocities).current_frame < animation.sequence_len(),
        animated_through(animation, velocities).sequence_len() == animation.sequence_len(),
    decreases velocities.len(),
{
    if velocities.len() > 0 {
        lemma_frame_stays_in_range(animation, velocities.drop_last());
        lemma_frame_in_range(
            animated_through(animation, velocities.drop_last()),
            velocities.last(),
        );
    }
}

/// At rest the first frame of the faced direction shows, whichever frame
/// showed before.
pub proof fn lemma_idle_shows_first_frame(animation: MovementAnimation, velocity: Velocity)
    requires
        velocity.speed == 0,
    ensures
        shown(animation, velocity) == animation.frames(velocity.direction)[0],
        animated(animation, velocity).current_frame == 0,
{
}

impl Animator {
    /// Advances one animation by a tick and returns the sprite to show. At
    /// rest the frame index goes back to zero; in motion it moves on by one
    /// and starts over behind the last frame. The sprite is the frame with
    /// that index in the sequence of the faced direction.
    pub fn advance(animation: &mut MovementAnimation, velocity: Velocity) -> (sprite: Sprite)
        requires
            old(animation).wf(),
        ensures
            *final(animation) == animated(*old(animation), velocity),
            sprite == shown(*old(animation), velocity),
            final(animation).wf(),
            final(animation).current_frame < old(animation).sequence_len(),
            velocity.speed == 0 ==> final(animation).current_frame == 0 && sprite == old(
                animation,
            ).frames(velocity.direction)[0],
    {
        let length: usize = animation.frames_for(velocity.direction).len();
        let next: usize = if velocity.speed == 0 {
            0
        } else {
            (animation.current_frame + 1) % length
        };
        animation.current_frame = next;
        let frames = animation.frames_for(velocity.direction);
        frames[next]
    }

    /// Animates every entity that has a velocity, an animation and a sprite:
    /// its animation advances by a tick and its sprite becomes the frame
    /// shown. Entities that lack one of the three stay as they are.
    pub fn run(
        &mut self,
        animations: &mut Storage<MovementAnimation>,
        sprites: &mut Storage<Sprite>,
        velocities: &Storage<Velocity>,
    )
        requires
            old(animations).wf(),
            old(sprites).wf(),
            velocities.wf(),
            all_wf(old(animations)@),
        ensures
            final(animations).wf(),
            final(sprites).wf(),
            final(animations)@ == animated_all(old(animations)@, old(sprites)@, velocities@),
            final(sprites)@ == shown_all(old(animations)@, old(sprites)@, velocities@),
            all_wf(final(animations)@),
    {
        let ids = join3(velocities, animations, sprites);
        let mut i: usize = 0;
        while i < ids.len()
            invariant
                0 <= i <= ids@.len(),
                crate::store::ascending(ids@),
                forall|id: Entity|
                    ids@.contains(id) <==> is_animated(
                        id,
                        old(animations)@,
                        old(sprites)@,
                        velocities@,
                    ),
                all_wf(old(animations)@),
                velocities.wf(),
                animations.wf(),
                sprites.wf(),
                animations@.dom() == old(animations)@.dom(),
                sprites@.dom() == old(sprites)@.dom(),
                forall|id: Entity| #[trigger]
                    animations@.contains_key(id) ==> animations@[id] == if ids@.take(
                        i as int,
                    ).contains(id) {
                        animated(old(animations)@[id], velocities@[id])
                    } else {
                        old(animations)@[id]
                    },
                forall|id: Entity| #[trigger]
                    sprites@.contains_key(id) ==> sprites@[id] == if ids@.take(
                        i as int,
                    ).contains(id) {
                        shown(old(animations)@[id], velocities@[id])
                    } else {
                        old(sprites)@[id]
                    },
            decreases ids@.len() - i,
        {
            let id: Entity = ids[i];
            assert(ids@.contains(id));
            proof {
                animations.lemma_entities_bounded();
                sprites.lemma_entities_bounded();
                if ids@.take(i as int).contains(id) {
                    let j = choose|j: int| 0 <= j < i && ids@.take(i as int)[j] == id;
                    assert(ids@[j] == ids@[i as int]);
                }
            }
            let velocity: Velocity = *velocities.get(id).unwrap();
            let ghost animations_before = animations@;
            let ghost sprites_before = sprites@;
            let mut animation: MovementAnimation = animations.remove(id).unwrap();
            assert(animation == old(animations)@[id]);
            assert(animation.wf());
            let sprite = Animator::advance(&mut animation, velocity);
            let _ = animations.insert(id, animation);
            let _ = sprites.insert(id, sprite);
            proof {
                assert(animations@.dom() =~= animations_before.dom());
                assert(sprites@.dom() =~= sprites_before.dom());
                let shorter = ids@.take(i as int);
                let longer = ids@.take(i + 1);
                assert(longer[i as int] == id);
                assert forall|e: Entity| shorter.contains(e) implies longer.contains(e) by {
                    let j = choose|j: int| 0 <= j < i && shorter[j] == e;
                    assert(longer[j] == e);
                }
                assert forall|e: Entity| longer.contains(e) && e != id implies shorter.contains(
                    e,
                ) by {
                    let j = choose|j: int| 0 <= j < i + 1 && longer[j] == e;
                    assert(shorter[j] == e);
                }
                assert forall|e: Entity| #[trigger] animations@.contains_key(e) implies animations@[e]
                    == if longer.contains(e) {
                    animated(old(animations)@[e], velocities@[e])
                } else {
                    old(animations)@[e]
                } by {
                    if e != id {
                        assert(animations@[e] == animations_before[e]);
                    }
                }
                assert forall|e: Entity| #[trigger] sprites@.contains_key(e) implies sprites@[e]
                    == if longer.contains(e) {
                    shown(old(animations)@[e], velocities@[e])
                } else {
                    old(sprites)@[e]
                } by {
                    if e != id {
                        assert(sprites@[e] == sprites_before[e]);
                    }
                }
            }
            i = i + 1;
        }
        proof {
            assert(ids@.take(ids@.len() as int) =~= ids@);
            assert(animations@ =~= animated_all(old(animations)@, old(sprites)@, velocities@));
            assert(sprites@ =~= shown_all(old(animations)@, old(sprites)@, velocities@));
            assert forall|id: Entity| animations@.contains_key(id) implies (
            #[trigger] animations@[id]).wf() by {
                assert(old(animations)@[id].wf());
                lemma_frame_in_range(old(animations)@[id], velocities@[id]);
            }
        }
    }
}

} // verus!
