use tick_world::components::{
    all_fit, Direction, MovementAnimation, Region, SheetSize, Sprite, MAX_EXTENT, MIN_EXTENT,
};
use tick_world::spritesheet::{
    character_animation_frames, check_frames_in_range, direction_spritesheet_row,
    FRAMES_PER_DIRECTION,
};

#[test]
fn rows_of_the_directions() {
    assert_eq!(direction_spritesheet_row(Direction::Up), 3);
    assert_eq!(direction_spritesheet_row(Direction::Down), 0);
    assert_eq!(direction_spritesheet_row(Direction::Left), 1);
    assert_eq!(direction_spritesheet_row(Direction::Right), 2);
}

#[test]
fn region_new_keeps_ordinary_values() {
    assert_eq!(Region::new(3, -4, 26, 36), Region { x: 3, y: -4, width: 26, height: 36 });
}

#[test]
fn region_new_replaces_zero_sizes() {
    assert_eq!(Region::new(0, 0, 0, 0), Region { x: 0, y: 0, width: 1, height: 1 });
}

#[test]
fn region_new_clamps_to_half_range() {
    assert_eq!(MAX_EXTENT, i32::MAX / 2);
    assert_eq!(MIN_EXTENT, i32::MIN / 2);
    let r = Region::new(i32::MAX, i32::MIN, u32::MAX, (i32::MAX / 2) as u32 + 1);
    assert_eq!(
        r,
        Region { x: 1073741823, y: -1073741824, width: 1073741823, height: 1073741823 }
    );
    let r = Region::new(1073741823, -1073741824, 1073741823, 1);
    assert_eq!(r, Region { x: 1073741823, y: -1073741824, width: 1073741823, height: 1 });
    let r = Region::new(1073741824, -1073741825, 1073741824, 2);
    assert_eq!(r, Region { x: 1073741823, y: -1073741824, width: 1073741823, height: 2 });
}

#[test]
fn frames_of_each_direction() {
    let top_left = Region::new(0, 0, 26, 36);
    let rows = [
        (Direction::Down, 0),
        (Direction::Left, 36),
        (Direction::Right, 72),
        (Direction::Up, 108),
    ];
    for (direction, y) in rows {
        let frames = character_animation_frames(2, top_left, direction);
        assert_eq!(frames.len(), FRAMES_PER_DIRECTION);
        assert_eq!(frames.len(), 3);
        for (i, frame) in frames.iter().enumerate() {
            assert_eq!(frame.spritesheet, 2);
            assert_eq!(
                frame.region,
                Region { x: 26 * i as i32, y, width: 26, height: 36 }
            );
        }
    }
}

#[test]
fn frames_start_at_the_top_left_frame() {
    let top_left = Region::new(5, 7, 10, 20);
    let frames = character_animation_frames(0, top_left, Direction::Up);
    assert_eq!(frames[0].region, Region { x: 5, y: 67, width: 10, height: 20 });
    assert_eq!(frames[1].region, Region { x: 15, y: 67, width: 10, height: 20 });
    assert_eq!(frames[2].region, Region { x: 25, y: 67, width: 10, height: 20 });
}

#[test]
fn frames_far_out_are_clamped() {
    let top_left = Region::new(1073741000, 0, 800, 10);
    assert!(check_frames_in_range(top_left, Direction::Down));
    let frames = character_animation_frames(0, top_left, Direction::Down);
    assert_eq!(frames[0].region.x, 1073741000);
    assert_eq!(frames[1].region.x, 1073741800);
    assert_eq!(frames[2].region.x, 1073741823);
}

#[test]
fn frames_in_range_check() {
    let up = Direction::Up;
    assert!(check_frames_in_range(Region::new(0, 0, 26, 36), up));
    assert!(check_frames_in_range(Region { x: 1, y: 0, width: 1073741823, height: 1 }, up));
    assert!(!check_frames_in_range(Region { x: 2, y: 0, width: 1073741823, height: 1 }, up));
    assert!(check_frames_in_range(Region { x: 0, y: 0, width: 1, height: 715827882 }, up));
    assert!(!check_frames_in_range(Region { x: 0, y: 0, width: 1, height: 715827883 }, up));
    assert!(check_frames_in_range(Region { x: 0, y: 1, width: 1, height: 715827882 }, up));
    assert!(!check_frames_in_range(Region { x: 0, y: 2, width: 1, height: 715827882 }, up));
    assert!(!check_frames_in_range(Region { x: 0, y: 0, width: 0, height: 1 }, up));
    assert!(!check_frames_in_range(Region { x: 0, y: 0, width: 1, height: u32::MAX }, up));
}

#[test]
fn frames_in_range_depends_on_the_row() {
    let tall = Region { x: 0, y: 5, width: 1, height: 1073741823 };
    assert!(check_frames_in_range(tall, Direction::Down));
    assert!(check_frames_in_range(tall, Direction::Left));
    assert!(!check_frames_in_range(tall, Direction::Right));
    assert!(!check_frames_in_range(tall, Direction::Up));
    let frames = character_animation_frames(0, tall, Direction::Left);
    assert_eq!(frames[2].region, Region { x: 2, y: 1073741823, width: 1, height: 1073741823 });
}

#[test]
fn region_wf_check() {
    assert!(Region::new(0, 0, 0, 0).check_wf());
    assert!(Region { x: -1073741824, y: 1073741823, width: 1, height: 1073741823 }.check_wf());
    assert!(!Region { x: -1073741825, y: 0, width: 1, height: 1 }.check_wf());
    assert!(!Region { x: 0, y: 1073741824, width: 1, height: 1 }.check_wf());
    assert!(!Region { x: 0, y: 0, width: 0, height: 1 }.check_wf());
    assert!(!Region { x: 0, y: 0, width: 1, height: 1073741824 }.check_wf());
}

#[test]
fn sprite_fits_its_sheet() {
    let sheets = vec![SheetSize { width: 78, height: 144 }, SheetSize { width: 10, height: 10 }];
    let fits = |spritesheet: usize, x: i32, y: i32, width: u32, height: u32| {
        Sprite { spritesheet, region: Region { x, y, width, height } }.check_fits(&sheets)
    };
    assert!(fits(0, 0, 0, 78, 144));
    assert!(fits(0, 52, 108, 26, 36));
    assert!(!fits(0, 53, 108, 26, 36));
    assert!(!fits(0, 52, 109, 26, 36));
    assert!(!fits(0, -1, 0, 26, 36));
    assert!(!fits(0, 0, -1, 26, 36));
    assert!(!fits(1, 0, 0, 26, 36));
    assert!(fits(1, 0, 0, 10, 10));
    assert!(!fits(2, 0, 0, 1, 1));
    assert!(!fits(0, 0, 0, u32::MAX, 1));
}

#[test]
fn all_fit_checks_every_frame() {
    let sheets = vec![SheetSize { width: 78, height: 144 }];
    let top_left = Region::new(0, 0, 26, 36);
    let mut frames = character_animation_frames(0, top_left, Direction::Up);
    assert!(all_fit(&frames, &sheets));
    assert!(all_fit(&vec![], &sheets));
    frames[2].region.x = 53;
    assert!(!all_fit(&frames, &sheets));
}

#[test]
fn animation_checks() {
    let sheets = vec![SheetSize { width: 78, height: 144 }];
    let top_left = Region::new(0, 0, 26, 36);
    let build = || MovementAnimation {
        current_frame: 0,
        up_frames: character_animation_frames(0, top_left, Direction::Up),
        down_frames: character_animation_frames(0, top_left, Direction::Down),
        left_frames: character_animation_frames(0, top_left, Direction::Left),
        right_frames: character_animation_frames(0, top_left, Direction::Right),
    };
    let a = build();
    assert!(a.check_matched());
    assert!(a.check_wf());
    assert!(a.check_fits(&sheets));
    assert_eq!(a.frames_for(Direction::Left), &a.left_frames);
    assert_eq!(a.frames_for(Direction::Up), &a.up_frames);
    assert_eq!(a.frames_for(Direction::Down), &a.down_frames);
    assert_eq!(a.frames_for(Direction::Right), &a.right_frames);

    let mut b = build();
    b.current_frame = 3;
    assert!(b.check_matched());
    assert!(!b.check_wf());

    let mut c = build();
    c.left_frames.pop();
    assert!(!c.check_matched());
    assert!(!c.check_wf());

    let mut d = build();
    d.right_frames[2].region.width = 27;
    assert!(d.check_wf());
    assert!(!d.check_fits(&sheets));

    let e = MovementAnimation {
        current_frame: 0,
        up_frames: vec![],
        down_frames: vec![],
        left_frames: vec![],
        right_frames: vec![],
    };
    assert!(e.check_matched());
    assert!(!e.check_wf());
    assert!(e.check_fits(&sheets));
}
