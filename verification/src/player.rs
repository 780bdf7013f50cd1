//! Sprite sheets laid out in rows of walking frames, one row per direction,
//! and a single character that walks over such a sheet.

use vstd::prelude::*;
use vstd::arithmetic::div_mod::{lemma_add_mod_noop, lemma_small_mod};
use crate::components::{Direction, Player, Point, Rect, Sprite, Velocity};
use crate::error::EcsError;
use crate::model::{displaced_x, displaced_y};

verus! {

/// The number of frames in the walking cycle of a character.
pub const WALK_FRAMES: i32 = 3;

/// The row of a sprite sheet that shows a character facing `direction`.
pub open spec fn sheet_row(direction: Direction) -> int {
    match direction {
        Direction::Up => 3,
        Direction::Down => 0,
        Direction::Left => 1,
        Direction::Right => 2,
    }
}

/// The row of a sprite sheet that shows a character facing `direction`.
pub fn direction_spritesheet_row(direction: Direction) -> (row: i32)
    ensures
        row == sheet_row(direction),
{
    match direction {
        Direction::Up => 3,
        Direction::Down => 0,
        Direction::Left => 1,
        Direction::Right => 2,
    }
}

/// The region of a sheet that lies `column` frames to the right of
/// `top_left` and `row` frames below it.
pub open spec fn cell(top_left: Rect, column: int, row: int) -> Rect {
    Rect {
        x: (top_left.x + top_left.w * column) as i32,
        y: (top_left.y + top_left.h * row) as i32,
        w: top_left.w,
        h: top_left.h,
    }
}

/// Whether the corner of that region has coordinates that an `i32` can hold.
pub open spec fn cell_fits(top_left: Rect, column: int, row: int) -> bool {
    &&& i32::MIN <= top_left.x + top_left.w * column <= i32::MAX
    &&& i32::MIN <= top_left.y + top_left.h * row <= i32::MAX
}

/// `start + size * steps`, where an `i32` can hold it.
fn reach(start: i32, size: u32, steps: i32) -> (reached: Option<i32>)
    ensures
        reached == (if i32::MIN <= start + size * steps <= i32::MAX {
            Some((start + size * steps) as i32)
        } else {
            None
        }),
{
    assert(-0x8000_0000 * 0xffff_ffff <= size * steps <= 0x7fff_ffff * 0xffff_ffff)
        by (nonlinear_arith)
        requires
            -0x8000_0000 <= steps <= 0x7fff_ffff,
            0 <= size <= 0xffff_ffff,
    ;
    let far: i64 = start as i64 + size as i64 * steps as i64;
    if far < i32::MIN as i64 || far > i32::MAX as i64 {
        None
    } else {
        Some(far as i32)
    }
}

/// The region of a sheet that lies `column` frames to the right of
/// `top_left` and `row` frames below it, where its corner fits.
fn cell_at(top_left: Rect, column: i32, row: i32) -> (region: Option<Rect>)
    ensures
        region == (if cell_fits(top_left, column as int, row as int) {
            Some(cell(top_left, column as int, row as int))
        } else {
            None
        }),
{
    match (reach(top_left.x, top_left.w, column), reach(top_left.y, top_left.h, row)) {
        (Some(x), Some(y)) => Some(Rect { x, y, w: top_left.w, h: top_left.h }),
        _ => None,
    }
}

/// The walking frames of a character that faces `direction`: the three
/// regions of the row of that direction, from left to right, each as large
/// as `top_left_frame`, which is the first frame of the first row.
/// `PositionOverflow` where the corner of one of them does not fit.
pub fn character_animation_frames(
    spritesheet: usize,
    top_left_frame: Rect,
    direction: Direction,
) -> (result: Result<Vec<Sprite>, EcsError>)
    ensures
        match result {
            Ok(frames) => {
                &&& forall|column: int|
                    0 <= column < WALK_FRAMES ==> cell_fits(
                        top_left_frame,
                        column,
                        sheet_row(direction),
                    )
                &&& frames@.len() == WALK_FRAMES
                &&& forall|column: int|
                    0 <= column < WALK_FRAMES ==> #[trigger] frames@[column] == (Sprite {
                        spritesheet,
                        region: cell(top_left_frame, column, sheet_row(direction)),
                    })
            },
            Err(error) => error == EcsError::PositionOverflow && exists|column: int|
                0 <= column < WALK_FRAMES && !cell_fits(
                    top_left_frame,
                    column,
                    sheet_row(direction),
                ),
        },
{
    let row = direction_spritesheet_row(direction);
    let mut frames: Vec<Sprite> = Vec::new();
    let mut column: i32 = 0;
    while column < WALK_FRAMES
        invariant
            0 <= column <= WALK_FRAMES,
            row == sheet_row(direction),
            frames@.len() == column,
            forall|earlier: int|
                0 <= earlier < column ==> cell_fits(top_left_frame, earlier, sheet_row(direction)),
            forall|earlier: int|
                0 <= earlier < column ==> #[trigger] frames@[earlier] == (Sprite {
                    spritesheet,
                    region: cell(top_left_frame, earlier, sheet_row(direction)),
                }),
        decreases WALK_FRAMES - column,
    {
        match cell_at(top_left_frame, column, row) {
            Some(region) => frames.push(Sprite { spritesheet, region }),
            None => {
                return Err(EcsError::PositionOverflow);
            },
        }
        column += 1;
    }
    Ok(frames)
}

/// The least coordinate of the plane that a player walks on.
pub const PLANE_MIN: i32 = -1_073_741_824;

/// The greatest coordinate of the plane that a player walks on.
pub const PLANE_MAX: i32 = 1_073_741_823;

/// The coordinate of the plane that is nearest to `coordinate`: itself where
/// it lies on the plane, else the edge on its side.
pub open spec fn kept_on_plane(coordinate: int) -> int {
    if coordinate > PLANE_MAX {
        PLANE_MAX as int
    } else if coordinate < PLANE_MIN {
        PLANE_MIN as int
    } else {
        coordinate
    }
}

/// The point that a player reaches from `point` after one tick at
/// `velocity`: `speed` units along the axis of the direction, and no further
/// than the edge of the plane.
pub open spec fn walked(point: Point, velocity: Velocity) -> Point {
    Point {
        x: kept_on_plane(displaced_x(point.x as int, velocity)) as i32,
        y: kept_on_plane(displaced_y(point.y as int, velocity)) as i32,
    }
}

/// The coordinate of the plane that is nearest to `coordinate`.
fn keep_on_plane(coordinate: i64) -> (kept: i32)
    ensures
        kept == kept_on_plane(coordinate as int),
{
    if coordinate > PLANE_MAX as i64 {
        PLANE_MAX
    } else if coordinate < PLANE_MIN as i64 {
        PLANE_MIN
    } else {
        coordinate as i32
    }
}

impl Point {
    /// The point that a player reaches from this one after one tick at
    /// `velocity`. A step that would lead off the plane ends at its edge.
    pub fn walk(self, velocity: Velocity) -> (reached: Point)
        ensures
            reached == walked(self, velocity),
    {
        let (x, y): (i64, i64) = match velocity.direction {
            Direction::Left => (self.x as i64 - velocity.speed as i64, self.y as i64),
            Direction::Right => (self.x as i64 + velocity.speed as i64, self.y as i64),
            Direction::Up => (self.x as i64, self.y as i64 - velocity.speed as i64),
            Direction::Down => (self.x as i64, self.y as i64 + velocity.speed as i64),
        };
        Point { x: keep_on_plane(x), y: keep_on_plane(y) }
    }
}

impl Player {
    /// The velocity of the player.
    pub open spec fn velocity(self) -> Velocity {
        Velocity { speed: self.speed, direction: self.direction }
    }

    /// The player one step later: moved by its speed along its direction, as
    /// far as the plane goes, and, unless it stands still, showing the frame
    /// after the one it showed.
    pub open spec fn stepped(self) -> Player {
        Player {
            position: walked(self.position, self.velocity()),
            current_frame: if self.speed != 0 {
                walk_frame_after(self.current_frame as int) as i32
            } else {
                self.current_frame
            },
            ..self
        }
    }

    /// The region of the sheet that shows the player now: in the row of its
    /// direction, as many frames to the right as its frame index says.
    /// `PositionOverflow` where the corner of the region does not fit.
    pub fn frame_region(&self) -> (result: Result<Rect, EcsError>)
        ensures
            result == (if !cell_fits(
                self.sprite,
                self.current_frame as int,
                sheet_row(self.direction),
            ) {
                Err::<Rect, EcsError>(EcsError::PositionOverflow)
            } else {
                Ok::<Rect, EcsError>(
                    cell(self.sprite, self.current_frame as int, sheet_row(self.direction)),
                )
            }),
    {
        match cell_at(self.sprite, self.current_frame, direction_spritesheet_row(self.direction)) {
            Some(region) => Ok(region),
            None => Err(EcsError::PositionOverflow),
        }
    }
}

/// The frame index that follows `current` in the walking cycle: the
/// remainder of `current + 1` by the length of the cycle. From an index that
/// is not negative this is an index of the cycle, the first one after the
/// last, and `current + 1` is taken as it is even where an `i32` could not
/// hold it. From a negative index the remainder keeps the sign of
/// `current + 1`, so it lies between zero and the length of the cycle
/// negated.
pub open spec fn walk_frame_after(current: int) -> int {
    if current + 1 >= 0 {
        (current + 1) % (WALK_FRAMES as int)
    } else {
        -((-(current + 1)) % (WALK_FRAMES as int))
    }
}

/// The frame index that follows `current` in the walking cycle.
pub fn next_walk_frame(current: i32) -> (next: i32)
    ensures
        next == walk_frame_after(current as int),
        current >= 0 ==> 0 <= next < WALK_FRAMES,
        current < 0 ==> -WALK_FRAMES < next <= 0,
{
    if current >= 0 {
        proof {
            lemma_add_mod_noop(current as int, 1, WALK_FRAMES as int);
            lemma_small_mod(1, WALK_FRAMES as nat);
        }
        (current % WALK_FRAMES + 1) % WALK_FRAMES
    } else {
        let behind: i32 = -(current + 1);
        -(behind % WALK_FRAMES)
    }
}

/// Takes the player one step further: it moves by its speed along its
/// direction, no further than the edge of the plane, and, unless it stands
/// still, shows the frame after the one it showed, wherever it ends up.
pub fn update_player(player: &mut Player)
    ensures
        *final(player) == old(player).stepped(),
        final(player).current_frame == (if old(player).speed != 0 {
            walk_frame_after(old(player).current_frame as int)
        } else {
            old(player).current_frame as int
        }),
{
    let velocity = Velocity { speed: player.speed, direction: player.direction };
    player.position = player.position.walk(velocity);
    if player.speed != 0 {
        player.current_frame = next_walk_frame(player.current_frame);
    }
}

} // verus!
