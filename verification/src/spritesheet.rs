//! Layout of a character spritesheet: one row of frames per direction.

use vstd::prelude::*;
use crate::components::{Direction, Region, Sprite, clamp_position};

verus! {

/// Number of frames in the walking animation of one direction.
pub const FRAMES_PER_DIRECTION: usize = 3;

/// Row of the spritesheet, counted from zero, that holds the frames of a
/// direction.
pub open spec fn sheet_row(direction: Direction) -> int {
    match direction {
        Direction::Up => 3,
        Direction::Down => 0,
        Direction::Left => 1,
        Direction::Right => 2,
    }
}

/// Row of the spritesheet, counted from zero, that holds the frames of a
/// direction.
pub fn direction_spritesheet_row(direction: Direction) -> (row: i32)
    ensures
        row == sheet_row(direction),
{
    match direction {
        Direction::Up => 3,
        Direction::Down => 0,
        Direction::Left => 1,
        Direction::Right => 2,
    }
}

/// Frame `i` of a direction on a sheet whose first frame is `top_left`:
/// `i` frame widths to the right and one frame height down per row.
pub open spec fn frame_sprite(
    spritesheet: usize,
    top_left: Region,
    direction: Direction,
    i: int,
) -> Sprite {
    Sprite {
        spritesheet,
        region: Region {
            x: clamp_position(top_left.x + top_left.width * i) as i32,
            y: clamp_position(top_left.y + top_left.height * sheet_row(direction)) as i32,
            width: top_left.width,
            height: top_left.height,
        },
    }
}

/// The offsets of the frames of a direction can be computed in `i32`.
pub open spec fn frames_in_range(top_left: Region, direction: Direction) -> bool {
    &&& top_left.wf()
    &&& top_left.x + top_left.width * 2 <= i32::MAX
    &&& top_left.height * sheet_row(direction) <= i32::MAX
    &&& top_left.y + top_left.height * sheet_row(direction) <= i32::MAX
}

/// Whether the offsets of the frames of a direction can be computed in
/// `i32`.
pub fn check_frames_in_range(top_left: Region, direction: Direction) -> (ok: bool)
    ensures
        ok == frames_in_range(top_left, direction),
{
    if !top_left.check_wf() {
        return false;
    }
    let max: i64 = 2147483647;
    let row: i64 = direction_spritesheet_row(direction) as i64;
    let x: i64 = top_left.x as i64;
    let y: i64 = top_left.y as i64;
    let w: i64 = top_left.width as i64;
    let h: i64 = top_left.height as i64;
    assert(0 <= h * row <= h * 3) by (nonlinear_arith)
        requires
            0 <= row <= 3,
            0 <= h,
    ;
    x + w * 2 <= max && h * row <= max && y + h * row <= max
}

/// The animation frames of one direction, cut from the spritesheet with the
/// given index: three frames side by side in the row of that direction.
pub fn character_animation_frames(
    spritesheet: usize,
    top_left_frame: Region,
    direction: Direction,
) -> (frames: Vec<Sprite>)
    requires
        frames_in_range(top_left_frame, direction),
    ensures
        frames@.len() == FRAMES_PER_DIRECTION,
        forall|i: int|
            0 <= i < FRAMES_PER_DIRECTION ==> frames@[i] == frame_sprite(
                spritesheet,
                top_left_frame,
                direction,
                i,
            ),
{
    let frame_width: u32 = top_left_frame.width;
    let frame_height: u32 = top_left_frame.height;
    let row: i32 = direction_spritesheet_row(direction);
    assert(0 <= frame_height * row) by (nonlinear_arith)
        requires
            0 <= row,
            0 <= frame_height,
    ;
    let y_offset: i32 = top_left_frame.y + frame_height as i32 * row;

    let mut frames: Vec<Sprite> = Vec::new();
    let mut i: i32 = 0;
    while i < 3
        invariant
            0 <= i <= 3,
            frames_in_range(top_left_frame, direction),
            frame_width == top_left_frame.width,
            frame_height == top_left_frame.height,
            y_offset == top_left_frame.y + top_left_frame.height * sheet_row(direction),
            frames@.len() == i,
            forall|k: int|
                0 <= k < i ==> frames@[k] == frame_sprite(
                    spritesheet,
                    top_left_frame,
                    direction,
                    k,
                ),
        decreases 3 - i,
    {
        assert(0 <= frame_width * i <= frame_width * 2) by (nonlinear_arith)
            requires
                0 <= i <= 2,
                0 <= frame_width,
        ;
        let region = Region::new(
            top_left_frame.x + frame_width as i32 * i,
            y_offset,
            frame_width,
            frame_height,
        );
        frames.push(Sprite { spritesheet, region });
        i = i + 1;
    }
    frames
}

} // verus!
