//! The order of the systems within a tick, and what a tick does to the
//! state of the world.

use vstd::prelude::*;
use crate::animator::{all_wf, animated_all, lemma_frame_in_range, shown_all, is_animated};
use crate::components::{Direction, MovementAnimation, Position, SheetSize, Sprite, Velocity};
use crate::input::MovementCommand;
use crate::keyboard::steered_all;
use crate::physics::{can_move_all, moved_all};
use crate::store::{Entity, MAX_ENTITIES};

verus! {

/// One system of the tick.
#[derive(Debug, Clone, Copy, PartialEq, Eq, Structural)]
pub enum Stage {
    /// The keyboard steers velocities.
    Velocity,
    /// Velocities move positions.
    Physics,
    /// Velocities pick animation frames and sprites.
    Animation,
}

/// Whether `later` reads what `earlier` writes, so that `earlier` has to run
/// first: physics and animation both read the velocities of the tick.
pub open spec fn depends_on(later: Stage, earlier: Stage) -> bool {
    earlier == Stage::Velocity && (later == Stage::Physics || later == Stage::Animation)
}

/// The order runs every stage once, and none before a stage it depends on.
pub open spec fn valid_order(order: Seq<Stage>) -> bool {
    &&& order.len() == 3
    &&& order.contains(Stage::Velocity)
    &&& order.contains(Stage::Physics)
    &&& order.contains(Stage::Animation)
    &&& forall|i: int, j: int|
        0 <= i < order.len() && 0 <= j < order.len() && depends_on(order[i], order[j]) ==> j < i
}

/// The components of every entity, and the sizes of the spritesheets.
pub struct WorldState {
    /// Size of each spritesheet, by its index.
    pub sheets: Seq<SheetSize>,
    /// Number of entities created so far: entities are numbered from zero.
    pub entities: nat,
    /// The entities that the keyboard steers.
    pub controlled: Set<Entity>,
    pub positions: Map<Entity, Position>,
    pub velocities: Map<Entity, Velocity>,
    pub sprites: Map<Entity, Sprite>,
    pub animations: Map<Entity, MovementAnimation>,
}

impl WorldState {
    /// What holds of every world: components belong to created entities,
    /// animations are well formed, and every sprite and frame lies inside
    /// its spritesheet.
    pub open spec fn valid(self) -> bool {
        &&& self.entities <= MAX_ENTITIES
        &&& forall|id: Entity| self.controlled.contains(id) ==> id < self.entities
        &&& forall|id: Entity| self.positions.contains_key(id) ==> id < self.entities
        &&& forall|id: Entity| self.velocities.contains_key(id) ==> id < self.entities
        &&& forall|id: Entity| self.sprites.contains_key(id) ==> id < self.entities
        &&& forall|id: Entity| self.animations.contains_key(id) ==> id < self.entities
        &&& all_wf(self.animations)
        &&& forall|id: Entity|
            self.animations.contains_key(id) ==> (#[trigger] self.animations[id]).fits(self.sheets)
        &&& forall|id: Entity|
            self.sprites.contains_key(id) ==> (#[trigger] self.sprites[id]).fits(self.sheets)
    }

    /// The state after one stage ran with the tick's command.
    pub open spec fn after_stage(self, stage: Stage, command: Option<MovementCommand>) -> WorldState {
        match stage {
            Stage::Velocity => WorldState {
                velocities: steered_all(command, self.controlled, self.velocities),
                ..self
            },
            Stage::Physics => WorldState {
                positions: moved_all(self.positions, self.velocities),
                ..self
            },
            Stage::Animation => WorldState {
                animations: animated_all(self.animations, self.sprites, self.velocities),
                sprites: shown_all(self.animations, self.sprites, self.velocities),
                ..self
            },
        }
    }

    /// The stage can run: physics needs every move to stay within `i32`.
    pub open spec fn stage_ready(self, stage: Stage) -> bool {
        stage == Stage::Physics ==> can_move_all(self.positions, self.velocities)
    }

    /// The state after the stages ran in the given order.
    pub open spec fn after_stages(
        self,
        order: Seq<Stage>,
        command: Option<MovementCommand>,
    ) -> WorldState
        decreases order.len(),
    {
        if order.len() == 0 {
            self
        } else {
            self.after_stage(order[0], command).after_stages(order.drop_first(), command)
        }
    }

    /// Each stage of the order can run when its turn comes.
    pub open spec fn stages_ready(self, order: Seq<Stage>, command: Option<MovementCommand>) -> bool
        decreases order.len(),
    {
        if order.len() == 0 {
            true
        } else {
            &&& self.stage_ready(order[0])
            &&& self.after_stage(order[0], command).stages_ready(order.drop_first(), command)
        }
    }

    /// The state after one tick: the command steers the velocities, then the
    /// new velocities move the positions and pick frames and sprites.
    pub open spec fn after_tick(self, command: Option<MovementCommand>) -> WorldState {
        let velocities = steered_all(command, self.controlled, self.velocities);
        WorldState {
            velocities,
            positions: moved_all(self.positions, velocities),
            animations: animated_all(self.animations, self.sprites, velocities),
            sprites: shown_all(self.animations, self.sprites, velocities),
            ..self
        }
    }

    /// The tick can run: every move, at the steered velocities, stays
    /// within `i32`.
    pub open spec fn can_tick(self, command: Option<MovementCommand>) -> bool {
        can_move_all(self.positions, steered_all(command, self.controlled, self.velocities))
    }
}

/// The order in which a tick runs its stages.
pub open spec fn tick_order() -> Seq<Stage> {
    seq![Stage::Velocity, Stage::Physics, Stage::Animation]
}

/// The order in which a tick runs its stages: the velocity system first,
/// then the two systems that read its output.
pub fn stage_order() -> (order: Vec<Stage>)
    ensures
        order@ == tick_order(),
        valid_order(order@),
{
    let mut order: Vec<Stage> = Vec::new();
    order.push(Stage::Velocity);
    order.push(Stage::Physics);
    order.push(Stage::Animation);
    proof {
        assert(order@ =~= tick_order());
        assert(order@[0] == Stage::Velocity);
        assert(order@[1] == Stage::Physics);
        assert(order@[2] == Stage::Animation);
    }
    order
}

/// A stage leaves a valid state valid.
pub proof fn lemma_stage_keeps_valid(
    state: WorldState,
    stage: Stage,
    command: Option<MovementCommand>,
)
    requires
        state.valid(),
    ensures
        state.after_stage(stage, command).valid(),
{
    let next = state.after_stage(stage, command);
    match stage {
        Stage::Velocity => {},
        Stage::Physics => {},
        Stage::Animation => {
            assert forall|id: Entity| next.animations.contains_key(id) implies (
            #[trigger] next.animations[id]).wf() && next.animations[id].fits(state.sheets) by {
                assert(state.animations[id].wf());
                assert(state.animations[id].fits(state.sheets));
                let before = state.animations[id];
                let after = next.animations[id];
                if is_animated(id, state.animations, state.sprites, state.velocities) {
                    lemma_frame_in_range(before, state.velocities[id]);
                }
                assert forall|d: Direction, i: int| 0 <= i < after.frames(d).len() implies (
                #[trigger] after.frames(d)[i]).fits(state.sheets) by {
                    assert(after.frames(d) == before.frames(d));
                    assert(before.frames(d)[i].fits(state.sheets));
                }
            }
            assert forall|id: Entity| next.sprites.contains_key(id) implies (
            #[trigger] next.sprites[id]).fits(state.sheets) by {
                assert(state.sprites[id].fits(state.sheets));
                if is_animated(id, state.animations, state.sprites, state.velocities) {
                    let animation = state.animations[id];
                    let velocity = state.velocities[id];
                    assert(animation.wf());
                    assert(animation.fits(state.sheets));
                    lemma_frame_in_range(animation, velocity);
                    assert(animation.frames(velocity.direction)[crate::animator::next_frame(
                        animation,
                        velocity,
                    )].fits(state.sheets));
                }
            }
        },
    }
}

/// Physics and animation touch different components and both only read the
/// velocities: whichever runs first, the outcome is the same.
pub proof fn lemma_physics_animation_commute(state: WorldState, command: Option<MovementCommand>)
    ensures
        state.after_stage(Stage::Physics, command).after_stage(Stage::Animation, command)
            == state.after_stage(Stage::Animation, command).after_stage(Stage::Physics, command),
{
}

/// Running the stages in the tick's order gives the state after the tick.
pub proof fn lemma_tick_order_is_tick(state: WorldState, command: Option<MovementCommand>)
    ensures
        state.after_stages(tick_order(), command) == state.after_tick(command),
        state.stages_ready(tick_order(), command) == state.can_tick(command),
{
    let order = tick_order();
    lemma_order_unfolds(state, order, command);
}

/// Every valid order of the stages gives the state after the tick.
pub proof fn lemma_valid_orders_agree(
    state: WorldState,
    order: Seq<Stage>,
    command: Option<MovementCommand>,
)
    requires
        valid_order(order),
    ensures
        state.after_stages(order, command) == state.after_tick(command),
        state.stages_ready(order, command) == state.can_tick(command),
{
    let v = choose|i: int| 0 <= i < order.len() && order[i] == Stage::Velocity;
    let p = choose|i: int| 0 <= i < order.len() && order[i] == Stage::Physics;
    let a = choose|i: int| 0 <= i < order.len() && order[i] == Stage::Animation;
    assert(depends_on(order[p], order[v]));
    assert(depends_on(order[a], order[v]));
    assert(v == 0);
    lemma_order_unfolds(state, order, command);
    lemma_physics_animation_commute(state.after_stage(Stage::Velocity, command), command);
}

/// What three stages in a row come to.
proof fn lemma_order_unfolds(state: WorldState, order: Seq<Stage>, command: Option<MovementCommand>)
    requires
        order.len() == 3,
    ensures
        state.after_stages(order, command) == state.after_stage(order[0], command).after_stage(
            order[1],
            command,
        ).after_stage(order[2], command),
        state.stages_ready(order, command) == (state.stage_ready(order[0]) && state.after_stage(
            order[0],
            command,
        ).stage_ready(order[1]) && state.after_stage(order[0], command).after_stage(
            order[1],
            command,
        ).stage_ready(order[2])),
{
    let first = state.after_stage(order[0], command);
    let second = first.after_stage(order[1], command);
    let third = second.after_stage(order[2], command);
    let rest1 = order.drop_first();
    let rest2 = rest1.drop_first();
    let rest3 = rest2.drop_first();
    assert(rest1[0] == order[1]);
    assert(rest2[0] == order[2]);
    assert(rest3.len() == 0);
    assert(third.after_stages(rest3, command) == third);
    assert(second.after_stages(rest2, command) == third);
    assert(first.after_stages(rest1, command) == third);
    assert(third.stages_ready(rest3, command));
    assert(second.stages_ready(rest2, command) == second.stage_ready(order[2]));
    assert(first.stages_ready(rest1, command) == (first.stage_ready(order[1])
        && second.stage_ready(order[2])));
}

} // verus!
