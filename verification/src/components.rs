//! The data attached to entities: one plain type per component kind, the
//! movement command shared by a whole tick, and the geometry they are made of.

use vstd::prelude::*;

verus! {

/// The four directions an entity can face or move in.
#[derive(Debug, Clone, Copy, PartialEq, Eq, Structural)]
pub enum Direction {
    Left,
    Right,
    Up,
    Down,
}

/// A point of the integer plane; `y` grows downwards.
#[derive(Debug, Clone, Copy, PartialEq, Eq, Structural)]
pub struct Point {
    pub x: i32,
    pub y: i32,
}

/// An axis-aligned rectangle, given by its top-left corner and its size.
#[derive(Debug, Clone, Copy, PartialEq, Eq, Structural)]
pub struct Rect {
    pub x: i32,
    pub y: i32,
    pub w: u32,
    pub h: u32,
}

/// Where an entity is.
#[derive(Debug, Clone, Copy, PartialEq, Eq, Structural)]
pub struct Position(pub Point);

/// What is drawn for an entity: a region of one of the sprite sheets.
#[derive(Debug, Clone, Copy, PartialEq, Eq, Structural)]
pub struct Sprite {
    pub spritesheet: usize,
    pub region: Rect,
}

/// How fast an entity moves, and which way.
#[derive(Debug, Clone, Copy, PartialEq, Eq, Structural)]
pub struct Velocity {
    pub speed: i32,
    pub direction: Direction,
}

/// What the input source asks of the controlled entities.
#[derive(Debug, Clone, Copy, PartialEq, Eq, Structural)]
pub enum MovementCommand {
    Stop,
    Move(Direction),
}

impl Default for MovementCommand {
    fn default() -> (command: Self)
        ensures
            command == MovementCommand::Stop,
    {
        MovementCommand::Stop
    }
}

/// Marks the entities that obey the movement command.
#[derive(Debug, Clone, Copy, PartialEq, Eq, Structural)]
pub struct KeyboardControlled;

impl Default for KeyboardControlled {
    fn default() -> (tag: Self)
        ensures
            tag == KeyboardControlled,
    {
        KeyboardControlled
    }
}

/// A single character that moves and walks on its own, outside any world.
#[derive(Debug, Clone, Copy, PartialEq, Eq, Structural)]
pub struct Player {
    pub position: Point,
    pub sprite: Rect,
    pub speed: i32,
    pub direction: Direction,
    pub current_frame: i32,
}

/// The walking animation of an entity: one frame sequence per direction and
/// the index of the frame that was shown last, shared by the four sequences.
#[derive(Debug, Clone)]
pub struct MovementAnimation {
    pub current_frame: usize,
    pub up_frames: Vec<Sprite>,
    pub down_frames: Vec<Sprite>,
    pub left_frames: Vec<Sprite>,
    pub right_frames: Vec<Sprite>,
}

/// A `MovementAnimation` as a mathematical value.
pub struct AnimationView {
    pub current_frame: nat,
    pub up_frames: Seq<Sprite>,
    pub down_frames: Seq<Sprite>,
    pub left_frames: Seq<Sprite>,
    pub right_frames: Seq<Sprite>,
}

impl AnimationView {
    /// The frame sequence shown while facing `direction`.
    pub open spec fn frames(self, direction: Direction) -> Seq<Sprite> {
        match direction {
            Direction::Left => self.left_frames,
            Direction::Right => self.right_frames,
            Direction::Up => self.up_frames,
            Direction::Down => self.down_frames,
        }
    }

    /// The same animation, showing frame `index`.
    pub open spec fn at_frame(self, index: nat) -> AnimationView {
        AnimationView { current_frame: index, ..self }
    }
}

impl View for MovementAnimation {
    type V = AnimationView;

    open spec fn view(&self) -> AnimationView {
        AnimationView {
            current_frame: self.current_frame as nat,
            up_frames: self.up_frames@,
            down_frames: self.down_frames@,
            left_frames: self.left_frames@,
            right_frames: self.right_frames@,
        }
    }
}

} // verus!
