//! The world: the storages of every component type, the creation of
//! entities, and the tick that runs the systems over them.

use vstd::prelude::*;
use crate::animator::Animator;
use crate::components::{
    Direction,
    KeyboardControlled,
    MovementAnimation,
    Position,
    Region,
    SheetSize,
    Sprite,
    Velocity,
};
use crate::spritesheet::{
    FRAMES_PER_DIRECTION,
    character_animation_frames,
    frame_sprite,
    frames_in_range,
};
use crate::input::MovementCommand;
use crate::keyboard::{Keyboard, steered_all};
use crate::physics::{Physics, can_move};
use crate::schedule::{
    Stage,
    WorldState,
    lemma_stage_keeps_valid,
    lemma_tick_order_is_tick,
    stage_order,
};
use crate::store::{Entity, MAX_ENTITIES, Storage, join2};

verus! {

/// The components an entity is created with. A component that is `None`, or
/// a marker that is `false`, is not attached.
#[derive(Debug)]
pub struct Bundle {
    pub keyboard_controlled: bool,
    pub position: Option<Position>,
    pub velocity: Option<Velocity>,
    pub sprite: Option<Sprite>,
    pub animation: Option<MovementAnimation>,
}

impl Bundle {
    /// The bundle of the player: steered by the keyboard, at the origin, at
    /// rest and facing right, with the walking animation cut from the given
    /// spritesheet and its first frame to the right as the sprite.
    pub fn player(spritesheet: usize, top_left_frame: Region) -> (bundle: Bundle)
        requires
            forall|d: Direction| frames_in_range(top_left_frame, d),
        ensures
            bundle.keyboard_controlled,
            bundle.position == Some(Position { x: 0, y: 0 }),
            bundle.velocity == Some(Velocity { speed: 0, direction: Direction::Right }),
            bundle.sprite == Some(frame_sprite(spritesheet, top_left_frame, Direction::Right, 0)),
            bundle.animation is Some,
            bundle.animation.unwrap().current_frame == 0,
            bundle.animation.unwrap().wf(),
            forall|d: Direction|
                (#[trigger] bundle.animation.unwrap().frames(d)).len() == FRAMES_PER_DIRECTION,
            forall|d: Direction, i: int|
                0 <= i < FRAMES_PER_DIRECTION ==> #[trigger] bundle.animation.unwrap().frames(d)[i]
                    == frame_sprite(spritesheet, top_left_frame, d, i),
    {
        let animation = MovementAnimation {
            current_frame: 0,
            up_frames: character_animation_frames(spritesheet, top_left_frame, Direction::Up),
            down_frames: character_animation_frames(spritesheet, top_left_frame, Direction::Down),
            left_frames: character_animation_frames(spritesheet, top_left_frame, Direction::Left),
            right_frames: character_animation_frames(spritesheet, top_left_frame, Direction::Right),
        };
        let sprite: Sprite = animation.right_frames[0];
        proof {
            assert forall|d: Direction| (#[trigger] animation.frames(d)).len()
                == FRAMES_PER_DIRECTION by {
                match d {
                    Direction::Up => {},
                    Direction::Down => {},
                    Direction::Left => {},
                    Direction::Right => {},
                }
            }
            assert forall|d: Direction, i: int| 0 <= i < FRAMES_PER_DIRECTION implies
                #[trigger] animation.frames(d)[i] == frame_sprite(
                spritesheet,
                top_left_frame,
                d,
                i,
            ) by {
                match d {
                    Direction::Up => {},
                    Direction::Down => {},
                    Direction::Left => {},
                    Direction::Right => {},
                }
            }
        }
        Bundle {
            keyboard_controlled: true,
            position: Some(Position { x: 0, y: 0 }),
            velocity: Some(Velocity { speed: 0, direction: Direction::Right }),
            sprite: Some(sprite),
            animation: Some(animation),
        }
    }
}

/// Why a bundle was turned down.
#[derive(Debug, Clone, Copy, PartialEq, Eq, Structural)]
pub enum ConfigError {
    /// The four sequences of the animation differ in length.
    MismatchedSequences,
    /// The current frame of the animation is no index into its sequences.
    FrameOutOfRange,
    /// The sprite, or a frame of the animation, names no spritesheet or
    /// reaches beyond the one it names.
    RegionOutOfBounds,
    /// No entity is left to give out.
    StoreFull,
}

/// What is wrong with a bundle, if anything, for a world with the given
/// spritesheets and number of entities. Of several faults the first in the
/// order of the variants is named.
pub open spec fn config_error(sheets: Seq<SheetSize>, entities: nat, bundle: Bundle) -> Option<
    ConfigError,
> {
    if bundle.animation is Some && !bundle.animation.unwrap().matched() {
        Some(ConfigError::MismatchedSequences)
    } else if bundle.animation is Some && !bundle.animation.unwrap().wf() {
        Some(ConfigError::FrameOutOfRange)
    } else if (bundle.sprite is Some && !bundle.sprite.unwrap().fits(sheets)) || (bundle.animation
        is Some && !bundle.animation.unwrap().fits(sheets)) {
        Some(ConfigError::RegionOutOfBounds)
    } else if entities >= MAX_ENTITIES {
        Some(ConfigError::StoreFull)
    } else {
        None
    }
}

/// The state with one more entity, `id`, that has the components of the
/// bundle.
pub open spec fn with_entity(state: WorldState, id: Entity, bundle: Bundle) -> WorldState {
    WorldState {
        sheets: state.sheets,
        entities: state.entities + 1,
        controlled: if bundle.keyboard_controlled {
            state.controlled.insert(id)
        } else {
            state.controlled
        },
        positions: match bundle.position {
            Some(position) => state.positions.insert(id, position),
            None => state.positions,
        },
        velocities: match bundle.velocity {
            Some(velocity) => state.velocities.insert(id, velocity),
            None => state.velocities,
        },
        sprites: match bundle.sprite {
            Some(sprite) => state.sprites.insert(id, sprite),
            None => state.sprites,
        },
        animations: match bundle.animation {
            Some(animation) => state.animations.insert(id, animation),
            None => state.animations,
        },
    }
}

/// The state of a world without entities.
pub open spec fn empty_state(sheets: Seq<SheetSize>) -> WorldState {
    WorldState {
        sheets,
        entities: 0,
        controlled: Set::empty(),
        positions: Map::empty(),
        velocities: Map::empty(),
        sprites: Map::empty(),
        animations: Map::empty(),
    }
}

/// What the renderer draws for one entity.
#[derive(Debug, Clone, Copy, PartialEq, Eq, Structural)]
pub struct Drawable {
    pub entity: Entity,
    pub position: Position,
    pub sprite: Sprite,
}

/// Owner of all component data.
pub struct World {
    sheets: Vec<SheetSize>,
    entities: u32,
    controlled: Storage<KeyboardControlled>,
    positions: Storage<Position>,
    velocities: Storage<Velocity>,
    sprites: Storage<Sprite>,
    animations: Storage<MovementAnimation>,
}

impl World {
    /// The components of every entity, as maps by entity.
    pub closed spec fn view(&self) -> WorldState {
        WorldState {
            sheets: self.sheets@,
            entities: self.entities as nat,
            controlled: self.controlled@.dom(),
            positions: self.positions@,
            velocities: self.velocities@,
            sprites: self.sprites@,
            animations: self.animations@,
        }
    }

    /// Every storage is well formed and the state is valid.
    pub closed spec fn wf(&self) -> bool {
        &&& self.controlled.wf()
        &&& self.positions.wf()
        &&& self.velocities.wf()
        &&& self.sprites.wf()
        &&& self.animations.wf()
        &&& self@.valid()
    }

    /// A well-formed world has a valid state.
    pub proof fn lemma_wf_is_valid(&self)
        requires
            self.wf(),
        ensures
            self@.valid(),
    {
    }

    /// A world without entities, for spritesheets of the given sizes.
    pub fn new(sheets: Vec<SheetSize>) -> (world: World)
        ensures
            world.wf(),
            world@ == empty_state(sheets@),
    {
        let world = World {
            sheets,
            entities: 0,
            controlled: Storage::new(),
            positions: Storage::new(),
            velocities: Storage::new(),
            sprites: Storage::new(),
            animations: Storage::new(),
        };
        assert(world.controlled@.dom() =~= Set::<Entity>::empty());
        world
    }

    /// Number of entities created so far.
    pub fn entity_count(&self) -> (n: u32)
        ensures
            n == self@.entities,
    {
        self.entities
    }

    /// The storage of the keyboard markers.
    pub fn controlled(&self) -> (s: &Storage<KeyboardControlled>)
        requires
            self.wf(),
        ensures
            s.wf(),
            s@.dom() == self@.controlled,
    {
        &self.controlled
    }

    /// The storage of the positions.
    pub fn positions(&self) -> (s: &Storage<Position>)
        requires
            self.wf(),
        ensures
            s.wf(),
            s@ == self@.positions,
    {
        &self.positions
    }

    /// The storage of the velocities.
    pub fn velocities(&self) -> (s: &Storage<Velocity>)
        requires
            self.wf(),
        ensures
            s.wf(),
            s@ == self@.velocities,
    {
        &self.velocities
    }

    /// The storage of the sprites.
    pub fn sprites(&self) -> (s: &Storage<Sprite>)
        requires
            self.wf(),
        ensures
            s.wf(),
            s@ == self@.sprites,
    {
        &self.sprites
    }

    /// The storage of the animations.
    pub fn animations(&self) -> (s: &Storage<MovementAnimation>)
        requires
            self.wf(),
        ensures
            s.wf(),
            s@ == self@.animations,
    {
        &self.animations
    }

    /// Creates an entity with the components of the bundle. The bundle is
    /// turned down, and the world left as it is, where its animation has
    /// sequences of different lengths or a current frame outside them, where
    /// its sprite or a frame does not lie inside its spritesheet, or where no
    /// entity is left.
    pub fn create_entity(&mut self, bundle: Bundle) -> (created: Result<Entity, ConfigError>)
        requires
            old(self).wf(),
        ensures
            final(self).wf(),
            match created {
                Ok(id) => {
                    &&& config_error(old(self)@.sheets, old(self)@.entities, bundle) is None
                    &&& id == old(self)@.entities
                    &&& final(self)@ == with_entity(old(self)@, id, bundle)
                },
                Err(error) => {
                    &&& config_error(old(self)@.sheets, old(self)@.entities, bundle) == Some(error)
                    &&& final(self)@ == old(self)@
                },
            },
    {
        match &bundle.animation {
            Some(animation) => {
                if !animation.check_matched() {
                    return Err(ConfigError::MismatchedSequences);
                }
                if !animation.check_wf() {
                    return Err(ConfigError::FrameOutOfRange);
                }
                if !animation.check_fits(&self.sheets) {
                    return Err(ConfigError::RegionOutOfBounds);
                }
            },
            None => {},
        }
        match &bundle.sprite {
            Some(sprite) => {
                if !sprite.check_fits(&self.sheets) {
                    return Err(ConfigError::RegionOutOfBounds);
                }
            },
            None => {},
        }
        if self.entities >= MAX_ENTITIES {
            return Err(ConfigError::StoreFull);
        }
        let id: Entity = self.entities;
        let ghost state = self@;
        let Bundle { keyboard_controlled, position, velocity, sprite, animation } = bundle;
        if keyboard_controlled {
            let _ = self.controlled.insert(id, KeyboardControlled);
        }
        match position {
            Some(position) => {
                let _ = self.positions.insert(id, position);
            },
            None => {},
        }
        match velocity {
            Some(velocity) => {
                let _ = self.velocities.insert(id, velocity);
            },
            None => {},
        }
        match sprite {
            Some(sprite) => {
                let _ = self.sprites.insert(id, sprite);
            },
            None => {},
        }
        match animation {
            Some(animation) => {
                let _ = self.animations.insert(id, animation);
            },
            None => {},
        }
        self.entities = id + 1;
        proof {
            let expected = with_entity(state, id, bundle);
            assert(self@.controlled =~= expected.controlled);
            assert(self@.positions =~= expected.positions);
            assert(self@.velocities =~= expected.velocities);
            assert(self@.sprites =~= expected.sprites);
            assert(self@.animations =~= expected.animations);
            assert(self@ == expected);
        }
        Ok(id)
    }

    /// Runs one stage with the tick's command.
    pub fn run_stage(&mut self, stage: Stage, command: &Option<MovementCommand>)
        requires
            old(self).wf(),
            old(self)@.stage_ready(stage),
        ensures
            final(self).wf(),
            final(self)@ == old(self)@.after_stage(stage, *command),
    {
        proof {
            lemma_stage_keeps_valid(self@, stage, *command);
        }
        match stage {
            Stage::Velocity => {
                let mut system = Keyboard;
                system.run(command, &self.controlled, &mut self.velocities);
            },
            Stage::Physics => {
                let mut system = Physics;
                system.run(&mut self.positions, &self.velocities);
            },
            Stage::Animation => {
                let mut system = Animator;
                system.run(&mut self.animations, &mut self.sprites, &self.velocities);
            },
        }
    }

    /// Runs the stages in the given order with the tick's command.
    pub fn run_stages(&mut self, order: &Vec<Stage>, command: &Option<MovementCommand>)
        requires
            old(self).wf(),
            old(self)@.stages_ready(order@, *command),
        ensures
            final(self).wf(),
            final(self)@ == old(self)@.after_stages(order@, *command),
    {
        let mut i: usize = 0;
        assert(order@.skip(0) =~= order@);
        while i < order.len()
            invariant
                0 <= i <= order@.len(),
                self.wf(),
                self@.stages_ready(order@.skip(i as int), *command),
                self@.after_stages(order@.skip(i as int), *command) == old(self)@.after_stages(
                    order@,
                    *command,
                ),
            decreases order@.len() - i,
        {
            proof {
                let rest = order@.skip(i as int);
                assert(rest[0] == order@[i as int]);
                assert(rest.drop_first() =~= order@.skip(i + 1));
            }
            self.run_stage(order[i], command);
            i = i + 1;
        }
    }

    /// Whether the tick can run with this command: whether every move, at
    /// the velocities that the command leads to, stays within `i32`.
    pub fn can_tick(&self, command: &Option<MovementCommand>) -> (ok: bool)
        requires
            self.wf(),
        ensures
            ok == self@.can_tick(*command),
    {
        let ghost steered = steered_all(*command, self@.controlled, self@.velocities);
        let ids = join2(&self.positions, &self.velocities);
        let mut i: usize = 0;
        while i < ids.len()
            invariant
                0 <= i <= ids@.len(),
                self.wf(),
                steered == steered_all(*command, self@.controlled, self@.velocities),
                forall|id: Entity|
                    ids@.contains(id) <==> (self@.positions.contains_key(id)
                        && self@.velocities.contains_key(id)),
                forall|j: int|
                    0 <= j < i ==> can_move(self@.positions[#[trigger] ids@[j]], steered[ids@[j]]),
            decreases ids@.len() - i,
        {
            let id: Entity = ids[i];
            assert(ids@.contains(id));
            let position: Position = *self.positions.get(id).unwrap();
            let current: Velocity = *self.velocities.get(id).unwrap();
            let velocity: Velocity = match command {
                Some(command) => {
                    if self.controlled.contains(id) {
                        Keyboard::steer(*command, current)
                    } else {
                        current
                    }
                },
                None => current,
            };
            assert(velocity == steered[id]);
            if !Physics::can_step(position, velocity) {
                return false;
            }
            i = i + 1;
        }
        assert forall|id: Entity|
            self@.positions.contains_key(id) && steered.contains_key(id) implies can_move(
            #[trigger] self@.positions[id],
            steered[id],
        ) by {
            assert(ids@.contains(id));
            let j = choose|j: int| 0 <= j < ids@.len() && ids@[j] == id;
            assert(can_move(self@.positions[ids@[j]], steered[ids@[j]]));
        }
        true
    }

    /// Runs one tick: the command steers the velocities of the entities that
    /// the keyboard controls; then the new velocities move the positions, and
    /// advance the animations and pick the sprites.
    pub fn tick(&mut self, command: &Option<MovementCommand>)
        requires
            old(self).wf(),
            old(self)@.can_tick(*command),
        ensures
            final(self).wf(),
            final(self)@ == old(self)@.after_tick(*command),
    {
        let order = stage_order();
        proof {
            lemma_tick_order_is_tick(self@, *command);
        }
        self.run_stages(&order, command);
    }

    /// What there is to draw: every entity that has a position and a sprite,
    /// each once, smallest first, with both.
    pub fn snapshot(&self) -> (drawn: Vec<Drawable>)
        requires
            self.wf(),
        ensures
            forall|k: int, l: int| 0 <= k < l < drawn@.len() ==> drawn@[k].entity < drawn@[l].entity,
            forall|k: int|
                0 <= k < drawn@.len() ==> {
                    let d = #[trigger] drawn@[k];
                    &&& self@.positions.contains_key(d.entity)
                    &&& self@.sprites.contains_key(d.entity)
                    &&& d.position == self@.positions[d.entity]
                    &&& d.sprite == self@.sprites[d.entity]
                },
            forall|id: Entity|
                self@.positions.contains_key(id) && self@.sprites.contains_key(id) ==> exists|
                    k: int,
                | 0 <= k < drawn@.len() && (#[trigger] drawn@[k]).entity == id,
    {
        let ids = join2(&self.positions, &self.sprites);
        let mut drawn: Vec<Drawable> = Vec::new();
        let mut i: usize = 0;
        while i < ids.len()
            invariant
                0 <= i <= ids@.len(),
                self.wf(),
                crate::store::ascending(ids@),
                forall|id: Entity|
                    ids@.contains(id) <==> (self@.positions.contains_key(id)
                        && self@.sprites.contains_key(id)),
                drawn@.len() == i,
                forall|k: int|
                    0 <= k < i ==> {
                        let d = #[trigger] drawn@[k];
                        &&& d.entity == ids@[k]
                        &&& d.position == self@.positions[d.entity]
                        &&& d.sprite == self@.sprites[d.entity]
                    },
            decreases ids@.len() - i,
        {
            let id: Entity = ids[i];
            assert(ids@.contains(id));
            let position: Position = *self.positions.get(id).unwrap();
            let sprite: Sprite = *self.sprites.get(id).unwrap();
            drawn.push(Drawable { entity: id, position, sprite });
            i = i + 1;
        }
        proof {
            assert forall|k: int| 0 <= k < drawn@.len() implies {
                let d = #[trigger] drawn@[k];
                &&& self@.positions.contains_key(d.entity)
                &&& self@.sprites.contains_key(d.entity)
            } by {
                assert(ids@.contains(ids@[k]));
            }
            assert forall|id: Entity|
                self@.positions.contains_key(id) && self@.sprites.contains_key(id) implies exists|
                k: int,
            | 0 <= k < drawn@.len() && (#[trigger] drawn@[k]).entity == id by {
                assert(ids@.contains(id));
                let k = choose|k: int| 0 <= k < ids@.len() && ids@[k] == id;
                assert(drawn@[k].entity == id);
            }
        }
        drawn
    }
}

} // verus!
