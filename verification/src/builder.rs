//! Building an entity: its first components are collected in a builder and
//! enter the world together.

use vstd::prelude::*;
use crate::components::{MovementAnimation, Position, Sprite, Velocity};
use crate::error::EcsError;
use crate::model::{ComponentKind, WorldModel, MAX_ENTITIES};
use crate::store::{
    ws_create, ws_put_animation, ws_put_controlled, ws_put_position, ws_put_sprite,
    ws_put_velocity,
};
use crate::world::{Entity, GameWorld};

verus! {

/// The components that an entity starts with.
pub struct EntityBuilder {
    pub position: Option<Position>,
    pub velocity: Option<Velocity>,
    pub sprite: Option<Sprite>,
    pub animation: Option<MovementAnimation>,
    pub controlled: bool,
}

impl EntityBuilder {
    /// Whether the entity starts with a component of `kind`.
    pub open spec fn has(self, kind: ComponentKind) -> bool {
        match kind {
            ComponentKind::Position => self.position is Some,
            ComponentKind::Velocity => self.velocity is Some,
            ComponentKind::Sprite => self.sprite is Some,
            ComponentKind::MovementAnimation => self.animation is Some,
            ComponentKind::KeyboardControlled => self.controlled,
        }
    }

    /// What `build` returns in a world: the entity gets the next id, unless
    /// one of its components is of a kind that is not registered or the
    /// world is full.
    pub open spec fn outcome(self, world: WorldModel) -> Result<Entity, EcsError> {
        if exists|kind: ComponentKind| self.has(kind) && !world.registered.contains(kind) {
            Err(EcsError::UnregisteredKind)
        } else if world.entities >= MAX_ENTITIES {
            Err(EcsError::WorldFull)
        } else {
            Ok(Entity { id: world.entities as u32 })
        }
    }

    /// The world with one more entity, which has the components collected
    /// here and no others.
    pub open spec fn spawned(self, world: WorldModel) -> WorldModel {
        let id = world.entities as int;
        WorldModel {
            entities: world.entities + 1,
            positions: match self.position {
                Some(position) => world.positions.insert(id, position),
                None => world.positions,
            },
            velocities: match self.velocity {
                Some(velocity) => world.velocities.insert(id, velocity),
                None => world.velocities,
            },
            sprites: match self.sprite {
                Some(sprite) => world.sprites.insert(id, sprite),
                None => world.sprites,
            },
            animations: match self.animation {
                Some(animation) => world.animations.insert(id, animation@),
                None => world.animations,
            },
            controlled: if self.controlled {
                world.controlled.insert(id)
            } else {
                world.controlled
            },
            ..world
        }
    }

    /// A builder with no component in it.
    pub fn new() -> (builder: EntityBuilder)
        ensures
            builder.position is None,
            builder.velocity is None,
            builder.sprite is None,
            builder.animation is None,
            !builder.controlled,
    {
        EntityBuilder { position: None, velocity: None, sprite: None, animation: None, controlled: false }
    }

    /// The entity starts at `position`.
    pub fn with_position(self, position: Position) -> (builder: EntityBuilder)
        ensures
            builder == (EntityBuilder { position: Some(position), ..self }),
    {
        EntityBuilder { position: Some(position), ..self }
    }

    /// The entity starts with `velocity`.
    pub fn with_velocity(self, velocity: Velocity) -> (builder: EntityBuilder)
        ensures
            builder == (EntityBuilder { velocity: Some(velocity), ..self }),
    {
        EntityBuilder { velocity: Some(velocity), ..self }
    }

    /// The entity starts showing `sprite`.
    pub fn with_sprite(self, sprite: Sprite) -> (builder: EntityBuilder)
        ensures
            builder == (EntityBuilder { sprite: Some(sprite), ..self }),
    {
        EntityBuilder { sprite: Some(sprite), ..self }
    }

    /// The entity is animated by `animation`.
    pub fn with_animation(self, animation: MovementAnimation) -> (builder: EntityBuilder)
        ensures
            builder == (EntityBuilder { animation: Some(animation), ..self }),
    {
        EntityBuilder { animation: Some(animation), ..self }
    }

    /// The entity obeys the movement command.
    pub fn with_keyboard_control(self) -> (builder: EntityBuilder)
        ensures
            builder == (EntityBuilder { controlled: true, ..self }),
    {
        EntityBuilder { controlled: true, ..self }
    }

    /// Creates the entity in `world` and gives it its components. Where a
    /// component is of a kind that the world has no store for, or the world
    /// is full, nothing is created and the world stays as it is.
    pub fn build(self, world: &mut GameWorld) -> (result: Result<Entity, EcsError>)
        requires
            old(world).wf(),
        ensures
            final(world).wf(),
            result == self.outcome(old(world)@),
            result is Ok ==> final(world)@ == self.spawned(old(world)@),
            result is Err ==> final(world)@ == old(world)@,
    {
        if (self.position.is_some() && !world.has_positions) || (self.velocity.is_some()
            && !world.has_velocities) || (self.sprite.is_some() && !world.has_sprites) || (
        self.animation.is_some() && !world.has_animations) || (self.controlled
            && !world.has_controlled) {
            proof {
                let kind = if self.position is Some && !world.has_positions {
                    ComponentKind::Position
                } else if self.velocity is Some && !world.has_velocities {
                    ComponentKind::Velocity
                } else if self.sprite is Some && !world.has_sprites {
                    ComponentKind::Sprite
                } else if self.animation is Some && !world.has_animations {
                    ComponentKind::MovementAnimation
                } else {
                    ComponentKind::KeyboardControlled
                };
                assert(self.has(kind) && !world@.registered.contains(kind));
            }
            return Err(EcsError::UnregisteredKind);
        }
        assert forall|kind: ComponentKind| self.has(kind) implies world@.registered.contains(
            kind,
        ) by {
            match kind {
                ComponentKind::Position => {},
                ComponentKind::Velocity => {},
                ComponentKind::Sprite => {},
                ComponentKind::MovementAnimation => {},
                ComponentKind::KeyboardControlled => {},
            }
        }
        if world.count >= MAX_ENTITIES {
            return Err(EcsError::WorldFull);
        }
        let id = ws_create(&mut world.inner);
        world.count = world.count + 1;
        if let Some(position) = self.position {
            ws_put_position(&mut world.inner, id, position);
        }
        if let Some(velocity) = self.velocity {
            ws_put_velocity(&mut world.inner, id, velocity);
        }
        if let Some(sprite) = self.sprite {
            ws_put_sprite(&mut world.inner, id, sprite);
        }
        if let Some(animation) = self.animation {
            ws_put_animation(&mut world.inner, id, animation);
        }
        if self.controlled {
            ws_put_controlled(&mut world.inner, id);
        }
        Ok(Entity { id })
    }
}

impl GameWorld {
    /// Starts a new entity: the builder collects its components, and
    /// `EntityBuilder::build` brings it to life.
    pub fn create_entity(&self) -> (builder: EntityBuilder)
        ensures
            builder.position is None,
            builder.velocity is None,
            builder.sprite is None,
            builder.animation is None,
            !builder.controlled,
    {
        EntityBuilder::new()
    }
}

} // verus!
