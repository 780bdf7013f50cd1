//! The mathematical model of a world: what each store holds, keyed by entity
//! id, and what one pass of each system makes of it.

use vstd::prelude::*;
use crate::components::{
    AnimationView, Direction, MovementCommand, Point, Position, Sprite, Velocity,
};
use crate::error::EcsError;

verus! {

/// The component kinds a world can store.
#[derive(Debug, Clone, Copy, PartialEq, Eq, Structural)]
pub enum ComponentKind {
    Position,
    Velocity,
    Sprite,
    MovementAnimation,
    KeyboardControlled,
}

/// The speed that a `Move` command gives to a controlled entity.
pub const PLAYER_MOVEMENT_SPEED: i32 = 20;

/// The number of entities a world can hold: the bit sets that the stores
/// keep their ids in take ids below this on every platform.
pub const MAX_ENTITIES: u32 = 1_048_576;

/// A world as a mathematical value.
///
/// Entities are numbered from zero in the order of their creation, so the
/// live ones are the ids below `entities`. `command` is the resource slot:
/// `None` until a command, or the absence of one, has been written to it.
pub struct WorldModel {
    pub entities: nat,
    pub registered: Set<ComponentKind>,
    pub positions: Map<int, Position>,
    pub velocities: Map<int, Velocity>,
    pub sprites: Map<int, Sprite>,
    pub animations: Map<int, AnimationView>,
    pub controlled: Set<int>,
    pub command: Option<Option<MovementCommand>>,
}

impl WorldModel {
    /// The world before anything was registered, created or set.
    pub open spec fn empty() -> WorldModel {
        WorldModel {
            entities: 0,
            registered: Set::empty(),
            positions: Map::empty(),
            velocities: Map::empty(),
            sprites: Map::empty(),
            animations: Map::empty(),
            controlled: Set::empty(),
            command: None,
        }
    }

    /// Whether the world has created the entity `id`.
    pub open spec fn is_live(self, id: int) -> bool {
        0 <= id < self.entities
    }

    /// Whether the entity `id` has a component of `kind`.
    pub open spec fn has(self, kind: ComponentKind, id: int) -> bool {
        match kind {
            ComponentKind::Position => self.positions.contains_key(id),
            ComponentKind::Velocity => self.velocities.contains_key(id),
            ComponentKind::Sprite => self.sprites.contains_key(id),
            ComponentKind::MovementAnimation => self.animations.contains_key(id),
            ComponentKind::KeyboardControlled => self.controlled.contains(id),
        }
    }

    /// Whether the entity `id` is live and has a component of each of
    /// `kinds`.
    pub open spec fn has_all(self, kinds: Seq<ComponentKind>, id: int) -> bool {
        self.is_live(id) && forall|k: int| 0 <= k < kinds.len() ==> self.has(#[trigger] kinds[k], id)
    }

    /// Whether a component of `kind` can be given to the entity `id`, and
    /// the error where it cannot.
    pub open spec fn access(self, kind: ComponentKind, id: int) -> Result<(), EcsError> {
        if !self.registered.contains(kind) {
            Err(EcsError::UnregisteredKind)
        } else if !self.is_live(id) {
            Err(EcsError::NoSuchEntity)
        } else {
            Ok(())
        }
    }

    /// What holds of every world: it is within its capacity, and a store
    /// holds components only once its kind is registered, and only for live
    /// entities.
    pub open spec fn well_formed(self) -> bool {
        &&& self.entities <= MAX_ENTITIES
        &&& forall|id: int| #[trigger]
            self.positions.contains_key(id) ==> self.is_live(id) && self.registered.contains(
                ComponentKind::Position,
            )
        &&& forall|id: int| #[trigger]
            self.velocities.contains_key(id) ==> self.is_live(id) && self.registered.contains(
                ComponentKind::Velocity,
            )
        &&& forall|id: int| #[trigger]
            self.sprites.contains_key(id) ==> self.is_live(id) && self.registered.contains(
                ComponentKind::Sprite,
            )
        &&& forall|id: int| #[trigger]
            self.animations.contains_key(id) ==> self.is_live(id) && self.registered.contains(
                ComponentKind::MovementAnimation,
            )
        &&& forall|id: int| #[trigger]
            self.controlled.contains(id) ==> self.is_live(id) && self.registered.contains(
                ComponentKind::KeyboardControlled,
            )
    }

    /// Whether the entity `id` has what the passes expect of it: if it is
    /// controlled, a velocity, and if it is animated, a velocity and a
    /// sprite.
    pub open spec fn coherent_at(self, id: int) -> bool {
        &&& self.controlled.contains(id) ==> self.velocities.contains_key(id)
        &&& self.animations.contains_key(id) ==> self.velocities.contains_key(id)
            && self.sprites.contains_key(id)
    }

    /// Whether every entity has what the passes expect of it.
    pub open spec fn coherent(self) -> bool {
        forall|id: int| #[trigger] self.coherent_at(id)
    }

    /// Whether `other` gives the same entities the same kinds of components
    /// as this world, whatever their values.
    pub open spec fn same_shape(self, other: WorldModel) -> bool {
        &&& self.entities == other.entities
        &&& self.registered == other.registered
        &&& self.positions.dom() == other.positions.dom()
        &&& self.velocities.dom() == other.velocities.dom()
        &&& self.sprites.dom() == other.sprites.dom()
        &&& self.animations.dom() == other.animations.dom()
        &&& self.controlled == other.controlled
    }

    /// The entities that the input pass touches.
    pub open spec fn steered(self, id: int) -> bool {
        self.controlled.contains(id) && self.velocities.contains_key(id)
    }

    /// The entities that the motion pass touches.
    pub open spec fn moving(self, id: int) -> bool {
        self.positions.contains_key(id) && self.velocities.contains_key(id)
    }

    /// The entities that the animation pass looks at.
    pub open spec fn animated(self, id: int) -> bool {
        &&& self.animations.contains_key(id)
        &&& self.sprites.contains_key(id)
        &&& self.velocities.contains_key(id)
    }

    /// The entities that are drawn.
    pub open spec fn visible(self, id: int) -> bool {
        self.positions.contains_key(id) && self.sprites.contains_key(id)
    }
}

/// The velocity that a command leaves behind: none changes nothing, `Stop`
/// keeps the direction, `Move` sets both speed and direction.
pub open spec fn resolve_command(velocity: Velocity, command: Option<MovementCommand>) -> Velocity {
    match command {
        None => velocity,
        Some(MovementCommand::Stop) => Velocity { speed: 0, direction: velocity.direction },
        Some(MovementCommand::Move(direction)) => Velocity {
            speed: PLAYER_MOVEMENT_SPEED,
            direction,
        },
    }
}

/// The x coordinate reached from `x` after one tick at `velocity`.
pub open spec fn displaced_x(x: int, velocity: Velocity) -> int {
    match velocity.direction {
        Direction::Left => x - velocity.speed,
        Direction::Right => x + velocity.speed,
        Direction::Up => x,
        Direction::Down => x,
    }
}

/// The y coordinate reached from `y` after one tick at `velocity`.
pub open spec fn displaced_y(y: int, velocity: Velocity) -> int {
    match velocity.direction {
        Direction::Left => y,
        Direction::Right => y,
        Direction::Up => y - velocity.speed,
        Direction::Down => y + velocity.speed,
    }
}

/// Whether one tick at `velocity` keeps `point` within the coordinates that
/// an `i32` can hold.
pub open spec fn displacement_fits(point: Point, velocity: Velocity) -> bool {
    &&& i32::MIN <= displaced_x(point.x as int, velocity) <= i32::MAX
    &&& i32::MIN <= displaced_y(point.y as int, velocity) <= i32::MAX
}

/// The point reached from `point` after one tick at `velocity`.
pub open spec fn displaced(point: Point, velocity: Velocity) -> Point {
    Point {
        x: displaced_x(point.x as int, velocity) as i32,
        y: displaced_y(point.y as int, velocity) as i32,
    }
}

/// The point that the motion pass leaves an entity at: the point reached
/// after one tick at `velocity` where that lies within `i32`, and `point`
/// itself where it does not.
pub open spec fn moved(point: Point, velocity: Velocity) -> Point {
    if displacement_fits(point, velocity) {
        displaced(point, velocity)
    } else {
        point
    }
}

/// The frame index that follows `current` in a sequence of `len` frames.
pub open spec fn next_frame(current: nat, len: nat) -> nat
    recommends
        len > 0,
{
    (((current + 1) as int) % (len as int)) as nat
}

/// Whether the animation pass advances this entity: it moves, and the
/// sequence of its direction has a frame to show.
pub open spec fn advances(animation: AnimationView, velocity: Velocity) -> bool {
    velocity.speed != 0 && animation.frames(velocity.direction).len() > 0
}

/// Whether the animation pass finds nothing to show for this entity: it
/// moves, and the sequence of its direction is empty.
pub open spec fn frameless(animation: AnimationView, velocity: Velocity) -> bool {
    velocity.speed != 0 && animation.frames(velocity.direction).len() == 0
}

/// The animation after one pass at `velocity`.
pub open spec fn advanced(animation: AnimationView, velocity: Velocity) -> AnimationView {
    if advances(animation, velocity) {
        animation.at_frame(
            next_frame(animation.current_frame, animation.frames(velocity.direction).len()),
        )
    } else {
        animation
    }
}

/// The sprite after one pass at `velocity`.
pub open spec fn shown(animation: AnimationView, sprite: Sprite, velocity: Velocity) -> Sprite {
    if advances(animation, velocity) {
        animation.frames(velocity.direction)[advanced(animation, velocity).current_frame as int]
    } else {
        sprite
    }
}

impl WorldModel {
    /// The world after the input pass.
    pub open spec fn input_step(self) -> WorldModel {
        match self.command {
            Some(command) => WorldModel {
                velocities: Map::new(
                    |id: int| self.velocities.contains_key(id),
                    |id: int|
                        if self.controlled.contains(id) {
                            resolve_command(self.velocities[id], command)
                        } else {
                            self.velocities[id]
                        },
                ),
                ..self
            },
            None => self,
        }
    }

    /// Whether the motion pass keeps every position within `i32`.
    pub open spec fn motion_fits(self) -> bool {
        forall|id: int| #[trigger]
            self.moving(id) ==> displacement_fits(self.positions[id].0, self.velocities[id])
    }

    /// The world after the motion pass. Each entity moves on its own: one
    /// that would leave `i32` stays where it is and holds no other back.
    pub open spec fn motion_step(self) -> WorldModel {
        WorldModel {
            positions: Map::new(
                |id: int| self.positions.contains_key(id),
                |id: int|
                    if self.velocities.contains_key(id) {
                        Position(moved(self.positions[id].0, self.velocities[id]))
                    } else {
                        self.positions[id]
                    },
            ),
            ..self
        }
    }

    /// Whether some entity that the animation pass looks at moves in a
    /// direction whose frame sequence is empty.
    pub open spec fn has_frameless(self) -> bool {
        exists|id: int| #[trigger]
            self.animated(id) && frameless(self.animations[id], self.velocities[id])
    }

    /// The world after the animation pass. Each entity is animated on its
    /// own: one that moves in a direction without frames keeps what it shows
    /// and holds no other back.
    pub open spec fn animation_step(self) -> WorldModel {
        WorldModel {
            animations: Map::new(
                |id: int| self.animations.contains_key(id),
                |id: int|
                    if self.animated(id) {
                        advanced(self.animations[id], self.velocities[id])
                    } else {
                        self.animations[id]
                    },
            ),
            sprites: Map::new(
                |id: int| self.sprites.contains_key(id),
                |id: int|
                    if self.animated(id) {
                        shown(self.animations[id], self.sprites[id], self.velocities[id])
                    } else {
                        self.sprites[id]
                    },
            ),
            ..self
        }
    }
}

} // verus!
