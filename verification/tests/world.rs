use tick_world::components::{
    Direction, MovementAnimation, Position, Region, SheetSize, Sprite, Velocity,
};
use tick_world::input::{translate, InputEvent, Key};
use tick_world::schedule::{stage_order, Stage};
use tick_world::store::{join3, MAX_ENTITIES};
use tick_world::world::{Bundle, ConfigError, World};
use tick_world::MovementCommand;

fn sheets() -> Vec<SheetSize> {
    vec![SheetSize { width: 78, height: 144 }]
}

fn top_left() -> Region {
    Region::new(0, 0, 26, 36)
}

fn empty_bundle() -> Bundle {
    Bundle { keyboard_controlled: false, position: None, velocity: None, sprite: None, animation: None }
}

fn player_animation() -> MovementAnimation {
    Bundle::player(0, top_left()).animation.unwrap()
}

#[test]
fn new_world_has_no_entities() {
    let world = World::new(sheets());
    assert_eq!(world.entity_count(), 0);
    assert!(world.snapshot().is_empty());
    assert!(world.positions().entities().is_empty());
    assert!(world.can_tick(&None));
}

#[test]
fn entities_are_numbered_from_zero() {
    let mut world = World::new(sheets());
    assert_eq!(world.create_entity(empty_bundle()), Ok(0));
    assert_eq!(world.create_entity(Bundle::player(0, top_left())), Ok(1));
    assert_eq!(world.create_entity(empty_bundle()), Ok(2));
    assert_eq!(world.entity_count(), 3);
    assert!(!world.positions().contains(0));
    assert!(world.positions().contains(1));
    assert!(!world.positions().contains(2));
}

#[test]
fn player_bundle_fields() {
    let bundle = Bundle::player(0, top_left());
    assert!(bundle.keyboard_controlled);
    assert_eq!(bundle.position, Some(Position { x: 0, y: 0 }));
    assert_eq!(bundle.velocity, Some(Velocity { speed: 0, direction: Direction::Right }));
    let animation = bundle.animation.unwrap();
    assert_eq!(animation.current_frame, 0);
    assert_eq!(bundle.sprite, Some(animation.right_frames[0]));
    assert_eq!(animation.up_frames[2].region, Region { x: 52, y: 108, width: 26, height: 36 });
    assert_eq!(animation.down_frames[1].region, Region { x: 26, y: 0, width: 26, height: 36 });
    assert_eq!(animation.left_frames[0].region, Region { x: 0, y: 36, width: 26, height: 36 });
    assert_eq!(animation.right_frames[2].region, Region { x: 52, y: 72, width: 26, height: 36 });
}

#[test]
fn mismatched_sequences_are_rejected() {
    let mut world = World::new(sheets());
    let mut animation = player_animation();
    animation.down_frames.pop();
    let mut bundle = empty_bundle();
    bundle.animation = Some(animation);
    assert_eq!(world.create_entity(bundle), Err(ConfigError::MismatchedSequences));
    assert_eq!(world.entity_count(), 0);
    assert!(world.animations().entities().is_empty());
}

#[test]
fn frame_out_of_range_is_rejected() {
    let mut world = World::new(sheets());
    let mut animation = player_animation();
    animation.current_frame = 3;
    let mut bundle = empty_bundle();
    bundle.animation = Some(animation);
    assert_eq!(world.create_entity(bundle), Err(ConfigError::FrameOutOfRange));
    let mut bundle = empty_bundle();
    bundle.animation = Some(MovementAnimation {
        current_frame: 0,
        up_frames: vec![],
        down_frames: vec![],
        left_frames: vec![],
        right_frames: vec![],
    });
    assert_eq!(world.create_entity(bundle), Err(ConfigError::FrameOutOfRange));
    assert_eq!(world.entity_count(), 0);
}

#[test]
fn sprite_outside_its_sheet_is_rejected() {
    let mut world = World::new(sheets());
    let mut bundle = empty_bundle();
    bundle.sprite = Some(Sprite { spritesheet: 0, region: Region::new(60, 0, 26, 36) });
    assert_eq!(world.create_entity(bundle), Err(ConfigError::RegionOutOfBounds));
    let mut bundle = empty_bundle();
    bundle.sprite = Some(Sprite { spritesheet: 1, region: Region::new(0, 0, 1, 1) });
    assert_eq!(world.create_entity(bundle), Err(ConfigError::RegionOutOfBounds));
    assert_eq!(world.entity_count(), 0);
    assert!(world.sprites().entities().is_empty());
}

#[test]
fn frame_outside_its_sheet_is_rejected() {
    let mut world = World::new(vec![SheetSize { width: 77, height: 144 }]);
    assert_eq!(
        world.create_entity(Bundle::player(0, top_left())),
        Err(ConfigError::RegionOutOfBounds)
    );
    let mut world = World::new(vec![]);
    assert_eq!(
        world.create_entity(Bundle::player(0, top_left())),
        Err(ConfigError::RegionOutOfBounds)
    );
    assert_eq!(world.entity_count(), 0);
}

#[test]
fn mismatch_is_named_before_other_faults() {
    let mut world = World::new(vec![]);
    let mut animation = player_animation();
    animation.up_frames.pop();
    animation.current_frame = 9;
    let mut bundle = empty_bundle();
    bundle.animation = Some(animation);
    assert_eq!(world.create_entity(bundle), Err(ConfigError::MismatchedSequences));
}

#[test]
fn full_store_is_rejected() {
    let mut world = World::new(sheets());
    for id in 0..MAX_ENTITIES {
        assert_eq!(world.create_entity(empty_bundle()), Ok(id));
    }
    assert_eq!(world.entity_count(), MAX_ENTITIES);
    assert_eq!(world.create_entity(empty_bundle()), Err(ConfigError::StoreFull));
    assert_eq!(world.entity_count(), MAX_ENTITIES);
}

#[test]
fn stage_order_runs_velocity_first() {
    assert_eq!(stage_order(), vec![Stage::Velocity, Stage::Physics, Stage::Animation]);
}

#[test]
fn physics_and_animation_in_either_order() {
    let command = Some(MovementCommand::Move(Direction::Up));
    let mut first = World::new(sheets());
    let mut second = World::new(sheets());
    let mut third = World::new(sheets());
    for world in [&mut first, &mut second, &mut third] {
        world.create_entity(Bundle::player(0, top_left())).unwrap();
    }
    first.run_stages(&vec![Stage::Velocity, Stage::Physics, Stage::Animation], &command);
    second.run_stages(&vec![Stage::Velocity, Stage::Animation, Stage::Physics], &command);
    third.tick(&command);
    assert_eq!(first.snapshot(), second.snapshot());
    assert_eq!(first.snapshot(), third.snapshot());
    assert_eq!(first.velocities().get(0), second.velocities().get(0));
    assert_eq!(
        first.animations().get(0).unwrap().current_frame,
        second.animations().get(0).unwrap().current_frame
    );
    assert_eq!(first.snapshot()[0].position, Position { x: 0, y: -20 });
}

#[test]
fn single_stages_touch_only_their_components() {
    let command = Some(MovementCommand::Move(Direction::Left));
    let mut world = World::new(sheets());
    let id = world.create_entity(Bundle::player(0, top_left())).unwrap();
    world.run_stage(Stage::Velocity, &command);
    assert_eq!(world.velocities().get(id), Some(&Velocity { speed: 20, direction: Direction::Left }));
    assert_eq!(world.positions().get(id), Some(&Position { x: 0, y: 0 }));
    assert_eq!(world.animations().get(id).unwrap().current_frame, 0);
    world.run_stage(Stage::Physics, &command);
    assert_eq!(world.positions().get(id), Some(&Position { x: -20, y: 0 }));
    assert_eq!(world.animations().get(id).unwrap().current_frame, 0);
    world.run_stage(Stage::Animation, &command);
    assert_eq!(world.positions().get(id), Some(&Position { x: -20, y: 0 }));
    assert_eq!(world.animations().get(id).unwrap().current_frame, 1);
}

#[test]
fn only_controlled_entities_are_steered() {
    let mut world = World::new(sheets());
    let player = world.create_entity(Bundle::player(0, top_left())).unwrap();
    let mut drifting = empty_bundle();
    drifting.position = Some(Position { x: 100, y: 100 });
    drifting.velocity = Some(Velocity { speed: 3, direction: Direction::Down });
    let other = world.create_entity(drifting).unwrap();
    world.tick(&Some(MovementCommand::Move(Direction::Right)));
    assert_eq!(world.positions().get(player), Some(&Position { x: 20, y: 0 }));
    assert_eq!(world.positions().get(other), Some(&Position { x: 100, y: 103 }));
    assert_eq!(world.velocities().get(other), Some(&Velocity { speed: 3, direction: Direction::Down }));
}

#[test]
fn animation_query_finds_only_the_player() {
    let mut world = World::new(sheets());
    let mut no_sprite = Bundle::player(0, top_left());
    no_sprite.sprite = None;
    let mut no_velocity = Bundle::player(0, top_left());
    no_velocity.velocity = None;
    let mut no_animation = Bundle::player(0, top_left());
    no_animation.animation = None;
    world.create_entity(no_sprite).unwrap();
    world.create_entity(no_velocity).unwrap();
    let player = world.create_entity(Bundle::player(0, top_left())).unwrap();
    world.create_entity(no_animation).unwrap();
    world.create_entity(empty_bundle()).unwrap();
    assert_eq!(join3(world.velocities(), world.animations(), world.sprites()), vec![player]);
}

#[test]
fn can_tick_tells_when_a_move_would_overflow() {
    let mut world = World::new(sheets());
    let mut bundle = Bundle::player(0, top_left());
    bundle.position = Some(Position { x: i32::MAX - 10, y: 0 });
    world.create_entity(bundle).unwrap();
    assert!(world.can_tick(&None));
    assert!(world.can_tick(&Some(MovementCommand::Stop)));
    assert!(world.can_tick(&Some(MovementCommand::Move(Direction::Left))));
    assert!(world.can_tick(&Some(MovementCommand::Move(Direction::Up))));
    assert!(!world.can_tick(&Some(MovementCommand::Move(Direction::Right))));
}

#[test]
fn velocity_reflects_only_the_last_command_of_the_tick() {
    let mut world = World::new(sheets());
    let id = world.create_entity(Bundle::player(0, top_left())).unwrap();
    let command = translate(&vec![
        InputEvent::KeyDown { key: Key::Up, repeat: false },
        InputEvent::KeyUp { key: Key::Up, repeat: false },
    ]);
    assert_eq!(command, Some(MovementCommand::Stop));
    world.tick(&command);
    // the earlier key-down left no trace: the entity still faces right
    assert_eq!(world.velocities().get(id), Some(&Velocity { speed: 0, direction: Direction::Right }));
    assert_eq!(world.positions().get(id), Some(&Position { x: 0, y: 0 }));

    let command = translate(&vec![
        InputEvent::KeyUp { key: Key::Up, repeat: false },
        InputEvent::KeyDown { key: Key::Up, repeat: false },
    ]);
    world.tick(&command);
    assert_eq!(world.velocities().get(id), Some(&Velocity { speed: 20, direction: Direction::Up }));
    assert_eq!(world.positions().get(id), Some(&Position { x: 0, y: -20 }));
}
