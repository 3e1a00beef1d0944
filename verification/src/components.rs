//! Component records attached to entities.

use vstd::prelude::*;

verus! {

/// One of the four cardinal directions an entity can face.
#[derive(Debug, Clone, Copy, PartialEq, Eq, Structural)]
pub enum Direction {
    Up,
    Down,
    Left,
    Right,
}

/// Where an entity stands, in world units.
#[derive(Debug, Clone, Copy, PartialEq, Eq, Structural)]
pub struct Position {
    pub x: i32,
    pub y: i32,
}

/// Speed and facing of an entity. A speed of zero means the entity rests,
/// still facing the way it last moved.
#[derive(Debug, Clone, Copy, PartialEq, Eq, Structural)]
pub struct Velocity {
    pub speed: i32,
    pub direction: Direction,
}

/// Marks an entity as steered by the keyboard. It carries no data.
#[derive(Debug, Clone, Copy, PartialEq, Eq, Structural)]
pub struct KeyboardControlled;

/// Largest coordinate or size a region keeps.
pub const MAX_EXTENT: i32 = 1073741823;

/// Smallest coordinate a region keeps.
pub const MIN_EXTENT: i32 = -1073741824;

/// A coordinate brought into the range that regions keep.
pub open spec fn clamp_position(v: int) -> int {
    if v > MAX_EXTENT {
        MAX_EXTENT as int
    } else if v < MIN_EXTENT {
        MIN_EXTENT as int
    } else {
        v
    }
}

/// A size brought into the range that regions keep: never zero.
pub open spec fn clamp_size(v: int) -> int {
    if v == 0 {
        1
    } else if v > MAX_EXTENT {
        MAX_EXTENT as int
    } else {
        v
    }
}

/// A rectangle on a spritesheet, by its top-left corner and its size.
#[derive(Debug, Clone, Copy, PartialEq, Eq, Structural)]
pub struct Region {
    pub x: i32,
    pub y: i32,
    pub width: u32,
    pub height: u32,
}

impl Region {
    /// The region is non-empty and every field lies in the clamped range.
    pub open spec fn wf(self) -> bool {
        &&& MIN_EXTENT <= self.x <= MAX_EXTENT
        &&& MIN_EXTENT <= self.y <= MAX_EXTENT
        &&& 1 <= self.width <= MAX_EXTENT
        &&& 1 <= self.height <= MAX_EXTENT
    }

    /// The region with each field clamped.
    pub open spec fn clamped(x: int, y: int, width: int, height: int) -> Region {
        Region {
            x: clamp_position(x) as i32,
            y: clamp_position(y) as i32,
            width: clamp_size(width) as u32,
            height: clamp_size(height) as u32,
        }
    }

    /// Whether the region is well formed.
    pub fn check_wf(&self) -> (ok: bool)
        ensures
            ok == self.wf(),
    {
        MIN_EXTENT <= self.x && self.x <= MAX_EXTENT && MIN_EXTENT <= self.y && self.y
            <= MAX_EXTENT && 1 <= self.width && self.width <= 1073741823 && 1 <= self.height
            && self.height <= 1073741823
    }

    /// A region with the given corner and size. Coordinates are clamped to
    /// half the `i32` range and sizes to its upper half; a size of zero
    /// becomes one, so a region is never empty.
    pub fn new(x: i32, y: i32, width: u32, height: u32) -> (r: Region)
        ensures
            r == Region::clamped(x as int, y as int, width as int, height as int),
            r.wf(),
    {
        let cx: i32 = if x > MAX_EXTENT {
            MAX_EXTENT
        } else if x < MIN_EXTENT {
            MIN_EXTENT
        } else {
            x
        };
        let cy: i32 = if y > MAX_EXTENT {
            MAX_EXTENT
        } else if y < MIN_EXTENT {
            MIN_EXTENT
        } else {
            y
        };
        let cw: u32 = if width == 0 {
            1
        } else if width > 1073741823 {
            1073741823
        } else {
            width
        };
        let ch: u32 = if height == 0 {
            1
        } else if height > 1073741823 {
            1073741823
        } else {
            height
        };
        Region { x: cx, y: cy, width: cw, height: ch }
    }
}

/// Width and height of a spritesheet, in pixels.
#[derive(Debug, Clone, Copy, PartialEq, Eq, Structural)]
pub struct SheetSize {
    pub width: u32,
    pub height: u32,
}

/// What is drawn for an entity: a region of one spritesheet.
#[derive(Debug, Clone, Copy, PartialEq, Eq, Structural)]
pub struct Sprite {
    /// Index of the spritesheet to draw from.
    pub spritesheet: usize,
    /// Region of that spritesheet to draw.
    pub region: Region,
}

impl Sprite {
    /// The sprite's region lies inside a sheet of the given size.
    pub open spec fn within(self, sheet: SheetSize) -> bool {
        &&& self.region.x >= 0
        &&& self.region.y >= 0
        &&& self.region.x + self.region.width <= sheet.width
        &&& self.region.y + self.region.height <= sheet.height
    }

    /// The sprite names one of the given sheets and lies inside it.
    pub open spec fn fits(self, sheets: Seq<SheetSize>) -> bool {
        &&& self.spritesheet < sheets.len()
        &&& self.within(sheets[self.spritesheet as int])
    }

    /// Whether the sprite names one of `sheets` and lies inside it.
    pub fn check_fits(&self, sheets: &Vec<SheetSize>) -> (ok: bool)
        ensures
            ok == self.fits(sheets@),
    {
        if self.spritesheet >= sheets.len() {
            return false;
        }
        let sheet = sheets[self.spritesheet];
        self.region.x >= 0 && self.region.y >= 0
            && self.region.x as i64 + self.region.width as i64 <= sheet.width as i64
            && self.region.y as i64 + self.region.height as i64 <= sheet.height as i64
    }
}

/// The walking animation of an entity: one sequence of frames per direction
/// and the index of the frame that is showing.
#[derive(Debug)]
pub struct MovementAnimation {
    pub current_frame: usize,
    /// The sprite of each frame, one sequence per direction.
    pub up_frames: Vec<Sprite>,
    pub down_frames: Vec<Sprite>,
    pub left_frames: Vec<Sprite>,
    pub right_frames: Vec<Sprite>,
}

impl MovementAnimation {
    /// The frames shown while facing `direction`.
    pub open spec fn frames(self, direction: Direction) -> Seq<Sprite> {
        match direction {
            Direction::Up => self.up_frames@,
            Direction::Down => self.down_frames@,
            Direction::Left => self.left_frames@,
            Direction::Right => self.right_frames@,
        }
    }

    /// Number of frames in each sequence of a well-formed animation.
    pub open spec fn sequence_len(self) -> nat {
        self.up_frames@.len()
    }

    /// The four sequences have one common length.
    pub open spec fn matched(self) -> bool {
        &&& self.down_frames@.len() == self.up_frames@.len()
        &&& self.left_frames@.len() == self.up_frames@.len()
        &&& self.right_frames@.len() == self.up_frames@.len()
    }

    /// The four sequences have one common length and the current frame is an
    /// index into them, so none of them is empty.
    pub open spec fn wf(self) -> bool {
        &&& self.matched()
        &&& self.current_frame < self.up_frames@.len()
    }

    /// Every frame of every sequence fits one of `sheets`.
    pub open spec fn fits(self, sheets: Seq<SheetSize>) -> bool {
        forall|d: Direction, i: int|
            0 <= i < self.frames(d).len() ==> (#[trigger] self.frames(d)[i]).fits(sheets)
    }

    /// The frames shown while facing `direction`.
    pub fn frames_for(&self, direction: Direction) -> (frames: &Vec<Sprite>)
        ensures
            frames@ == self.frames(direction),
    {
        match direction {
            Direction::Up => &self.up_frames,
            Direction::Down => &self.down_frames,
            Direction::Left => &self.left_frames,
            Direction::Right => &self.right_frames,
        }
    }

    /// Whether the four sequences have one common length.
    pub fn check_matched(&self) -> (ok: bool)
        ensures
            ok == self.matched(),
    {
        let n = self.up_frames.len();
        self.down_frames.len() == n && self.left_frames.len() == n && self.right_frames.len() == n
    }

    /// Whether the animation is well formed.
    pub fn check_wf(&self) -> (ok: bool)
        ensures
            ok == self.wf(),
    {
        self.check_matched() && self.current_frame < self.up_frames.len()
    }

    /// Whether every frame of every sequence fits one of `sheets`.
    pub fn check_fits(&self, sheets: &Vec<SheetSize>) -> (ok: bool)
        ensures
            ok == self.fits(sheets@),
    {
        let ok = all_fit(&self.up_frames, sheets) && all_fit(&self.down_frames, sheets) && all_fit(
            &self.left_frames,
            sheets,
        ) && all_fit(&self.right_frames, sheets);
        proof {
            if ok {
                assert forall|d: Direction, i: int| 0 <= i < self.frames(d).len() implies (
                #[trigger] self.frames(d)[i]).fits(sheets@) by {
                    match d {
                        Direction::Up => {},
                        Direction::Down => {},
                        Direction::Left => {},
                        Direction::Right => {},
                    }
                }
            } else if self.fits(sheets@) {
                assert forall|d: Direction| every_fits(#[trigger] self.frames(d), sheets@) by {
                    assert forall|i: int| 0 <= i < self.frames(d).len() implies (
                    #[trigger] self.frames(d)[i]).fits(sheets@) by {}
                }
                assert(every_fits(self.frames(Direction::Up), sheets@));
                assert(every_fits(self.frames(Direction::Down), sheets@));
                assert(every_fits(self.frames(Direction::Left), sheets@));
                assert(every_fits(self.frames(Direction::Right), sheets@));
            }
        }
        ok
    }
}

/// Every sprite of the sequence fits one of `sheets`.
pub open spec fn every_fits(frames: Seq<Sprite>, sheets: Seq<SheetSize>) -> bool {
    forall|i: int| 0 <= i < frames.len() ==> (#[trigger] frames[i]).fits(sheets)
}

/// Whether every sprite of `frames` fits one of `sheets`.
pub fn all_fit(frames: &Vec<Sprite>, sheets: &Vec<SheetSize>) -> (ok: bool)
    ensures
        ok == every_fits(frames@, sheets@),
{
    let mut i: usize = 0;
    while i < frames.len()
        invariant
            0 <= i <= frames@.len(),
            forall|k: int| 0 <= k < i ==> (#[trigger] frames@[k]).fits(sheets@),
        decreases frames@.len() - i,
    {
        if !frames[i].check_fits(sheets) {
            return false;
        }
        i = i + 1;
    }
    true
}

} // verus!
