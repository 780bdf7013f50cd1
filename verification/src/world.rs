//! The world: the stores of every component kind, the entities, and the one
//! shared resource, the movement command of the current tick.

use vstd::prelude::*;
use crate::components::{
    KeyboardControlled, MovementAnimation, MovementCommand, Position, Sprite, Velocity,
};
use crate::error::EcsError;
use crate::join::lists;
use crate::model::{ComponentKind, WorldModel, MAX_ENTITIES};
use crate::store::{
    ws_animation, ws_command_now, ws_has_animation, ws_is_controlled, ws_model, ws_new, ws_position,
    ws_put_animation, ws_put_controlled, ws_put_position, ws_put_sprite, ws_put_velocity,
    ws_register_animations, ws_register_controlled, ws_register_positions, ws_register_sprites,
    ws_register_velocities, ws_set_command, ws_sprite, ws_take_animation, ws_take_controlled,
    ws_take_position, ws_take_sprite, ws_take_velocity, ws_velocity,
};

verus! {

/// An entity: an identifier and nothing else.
#[derive(Debug, Clone, Copy, PartialEq, Eq, Structural)]
pub struct Entity {
    pub id: u32,
}

/// A world. Its contents are the `WorldModel` that `view` gives.
pub struct GameWorld {
    pub(crate) inner: specs::World,
    pub(crate) count: u32,
    pub(crate) has_positions: bool,
    pub(crate) has_velocities: bool,
    pub(crate) has_sprites: bool,
    pub(crate) has_animations: bool,
    pub(crate) has_controlled: bool,
}

impl View for GameWorld {
    type V = WorldModel;

    open(crate) spec fn view(&self) -> WorldModel {
        ws_model(self.inner)
    }
}

impl GameWorld {
    /// The invariant of a world. `new` establishes it and every method keeps
    /// it.
    pub open(crate) spec fn wf(&self) -> bool {
        let model = ws_model(self.inner);
        &&& model.well_formed()
        &&& model.entities == self.count
        &&& self.has_positions == model.registered.contains(ComponentKind::Position)
        &&& self.has_velocities == model.registered.contains(ComponentKind::Velocity)
        &&& self.has_sprites == model.registered.contains(ComponentKind::Sprite)
        &&& self.has_animations == model.registered.contains(ComponentKind::MovementAnimation)
        &&& self.has_controlled == model.registered.contains(ComponentKind::KeyboardControlled)
    }

    /// A world that satisfies its invariant has a well-formed model.
    pub proof fn wf_model(&self)
        requires
            self.wf(),
        ensures
            self@.well_formed(),
    {
    }

    /// An empty world: no kind registered, no entity, no command set.
    pub fn new() -> (world: GameWorld)
        ensures
            world.wf(),
            world@ == WorldModel::empty(),
    {
        GameWorld {
            inner: ws_new(),
            count: 0,
            has_positions: false,
            has_velocities: false,
            has_sprites: false,
            has_animations: false,
            has_controlled: false,
        }
    }

    /// Gives the world a store for `kind`. Registering a kind again changes
    /// nothing.
    pub fn register_component_kind(&mut self, kind: ComponentKind)
        requires
            old(self).wf(),
        ensures
            final(self).wf(),
            final(self)@ == (WorldModel {
                registered: old(self)@.registered.insert(kind),
                ..old(self)@
            }),
    {
        let ghost before = ws_model(self.inner);
        match kind {
            ComponentKind::Position => {
                ws_register_positions(&mut self.inner);
                self.has_positions = true;
                assert(ws_model(self.inner).positions =~= before.positions);
            },
            ComponentKind::Velocity => {
                ws_register_velocities(&mut self.inner);
                self.has_velocities = true;
                assert(ws_model(self.inner).velocities =~= before.velocities);
            },
            ComponentKind::Sprite => {
                ws_register_sprites(&mut self.inner);
                self.has_sprites = true;
                assert(ws_model(self.inner).sprites =~= before.sprites);
            },
            ComponentKind::MovementAnimation => {
                ws_register_animations(&mut self.inner);
                self.has_animations = true;
                assert(ws_model(self.inner).animations =~= before.animations);
            },
            ComponentKind::KeyboardControlled => {
                ws_register_controlled(&mut self.inner);
                self.has_controlled = true;
                assert(ws_model(self.inner).controlled =~= before.controlled);
            },
        }
    }

    /// Whether the world has a store for `kind`.
    pub fn is_registered(&self, kind: ComponentKind) -> (registered: bool)
        requires
            self.wf(),
        ensures
            registered == self@.registered.contains(kind),
    {
        match kind {
            ComponentKind::Position => self.has_positions,
            ComponentKind::Velocity => self.has_velocities,
            ComponentKind::Sprite => self.has_sprites,
            ComponentKind::MovementAnimation => self.has_animations,
            ComponentKind::KeyboardControlled => self.has_controlled,
        }
    }

    /// The number of entities created so far.
    pub fn entity_count(&self) -> (count: u32)
        requires
            self.wf(),
        ensures
            count == self@.entities,
            count <= MAX_ENTITIES,
    {
        self.count
    }

    /// Whether the world created `entity`.
    pub fn is_live(&self, entity: Entity) -> (live: bool)
        requires
            self.wf(),
        ensures
            live == self@.is_live(entity.id as int),
    {
        entity.id < self.count
    }

    /// Gives `entity` the position `value`, in place of the one it had, if any.
    pub fn insert_position(&mut self, entity: Entity, value: Position) -> (result: Result<(), EcsError>)
        requires
            old(self).wf(),
        ensures
            final(self).wf(),
            result == old(self)@.access(ComponentKind::Position, entity.id as int),
            result is Ok ==> final(self)@ == (WorldModel {
                positions: old(self)@.positions.insert(entity.id as int, value),
                ..old(self)@
            }),
            result is Err ==> final(self)@ == old(self)@,
    {
        if !self.has_positions {
            return Err(EcsError::UnregisteredKind);
        }
        if entity.id >= self.count {
            return Err(EcsError::NoSuchEntity);
        }
        ws_put_position(&mut self.inner, entity.id, value);
        Ok(())
    }

    /// The position of `entity`, if it has one.
    pub fn position(&self, entity: Entity) -> (result: Result<Option<Position>, EcsError>)
        requires
            self.wf(),
        ensures
            result == (if self@.registered.contains(ComponentKind::Position) {
                Ok::<Option<Position>, EcsError>(self@.positions.get(entity.id as int))
            } else {
                Err::<Option<Position>, EcsError>(EcsError::UnregisteredKind)
            }),
    {
        if !self.has_positions {
            return Err(EcsError::UnregisteredKind);
        }
        Ok(ws_position(&self.inner, entity.id))
    }

    /// Takes the position of `entity` out of the world, if it has one.
    pub fn remove_position(&mut self, entity: Entity) -> (result: Result<Option<Position>, EcsError>)
        requires
            old(self).wf(),
        ensures
            final(self).wf(),
            result == (if old(self)@.registered.contains(ComponentKind::Position) {
                Ok::<Option<Position>, EcsError>(old(self)@.positions.get(entity.id as int))
            } else {
                Err::<Option<Position>, EcsError>(EcsError::UnregisteredKind)
            }),
            final(self)@ == (WorldModel {
                positions: old(self)@.positions.remove(entity.id as int),
                ..old(self)@
            }),
    {
        if !self.has_positions {
            proof {
                assert(self@.positions.remove(entity.id as int) =~= self@.positions);
            }
            return Err(EcsError::UnregisteredKind);
        }
        Ok(ws_take_position(&mut self.inner, entity.id))
    }

    /// Gives `entity` the velocity `value`, in place of the one it had, if any.
    pub fn insert_velocity(&mut self, entity: Entity, value: Velocity) -> (result: Result<(), EcsError>)
        requires
            old(self).wf(),
        ensures
            final(self).wf(),
            result == old(self)@.access(ComponentKind::Velocity, entity.id as int),
            result is Ok ==> final(self)@ == (WorldModel {
                velocities: old(self)@.velocities.insert(entity.id as int, value),
                ..old(self)@
            }),
            result is Err ==> final(self)@ == old(self)@,
    {
        if !self.has_velocities {
            return Err(EcsError::UnregisteredKind);
        }
        if entity.id >= self.count {
            return Err(EcsError::NoSuchEntity);
        }
        ws_put_velocity(&mut self.inner, entity.id, value);
        Ok(())
    }

    /// The velocity of `entity`, if it has one.
    pub fn velocity(&self, entity: Entity) -> (result: Result<Option<Velocity>, EcsError>)
        requires
            self.wf(),
        ensures
            result == (if self@.registered.contains(ComponentKind::Velocity) {
                Ok::<Option<Velocity>, EcsError>(self@.velocities.get(entity.id as int))
            } else {
                Err::<Option<Velocity>, EcsError>(EcsError::UnregisteredKind)
            }),
    {
        if !self.has_velocities {
            return Err(EcsError::UnregisteredKind);
        }
        Ok(ws_velocity(&self.inner, entity.id))
    }

    /// Takes the velocity of `entity` out of the world, if it has one.
    pub fn remove_velocity(&mut self, entity: Entity) -> (result: Result<Option<Velocity>, EcsError>)
        requires
            old(self).wf(),
        ensures
            final(self).wf(),
            result == (if old(self)@.registered.contains(ComponentKind::Velocity) {
                Ok::<Option<Velocity>, EcsError>(old(self)@.velocities.get(entity.id as int))
            } else {
                Err::<Option<Velocity>, EcsError>(EcsError::UnregisteredKind)
            }),
            final(self)@ == (WorldModel {
                velocities: old(self)@.velocities.remove(entity.id as int),
                ..old(self)@
            }),
    {
        if !self.has_velocities {
            proof {
                assert(self@.velocities.remove(entity.id as int) =~= self@.velocities);
            }
            return Err(EcsError::UnregisteredKind);
        }
        Ok(ws_take_velocity(&mut self.inner, entity.id))
    }

    /// Gives `entity` the sprite `value`, in place of the one it had, if any.
    pub fn insert_sprite(&mut self, entity: Entity, value: Sprite) -> (result: Result<(), EcsError>)
        requires
            old(self).wf(),
        ensures
            final(self).wf(),
            result == old(self)@.access(ComponentKind::Sprite, entity.id as int),
            result is Ok ==> final(self)@ == (WorldModel {
                sprites: old(self)@.sprites.insert(entity.id as int, value),
                ..old(self)@
            }),
            result is Err ==> final(self)@ == old(self)@,
    {
        if !self.has_sprites {
            return Err(EcsError::UnregisteredKind);
        }
        if entity.id >= self.count {
            return Err(EcsError::NoSuchEntity);
        }
        ws_put_sprite(&mut self.inner, entity.id, value);
        Ok(())
    }

    /// The sprite of `entity`, if it has one.
    pub fn sprite(&self, entity: Entity) -> (result: Result<Option<Sprite>, EcsError>)
        requires
            self.wf(),
        ensures
            result == (if self@.registered.contains(ComponentKind::Sprite) {
                Ok::<Option<Sprite>, EcsError>(self@.sprites.get(entity.id as int))
            } else {
                Err::<Option<Sprite>, EcsError>(EcsError::UnregisteredKind)
            }),
    {
        if !self.has_sprites {
            return Err(EcsError::UnregisteredKind);
        }
        Ok(ws_sprite(&self.inner, entity.id))
    }

    /// Takes the sprite of `entity` out of the world, if it has one.
    pub fn remove_sprite(&mut self, entity: Entity) -> (result: Result<Option<Sprite>, EcsError>)
        requires
            old(self).wf(),
        ensures
            final(self).wf(),
            result == (if old(self)@.registered.contains(ComponentKind::Sprite) {
                Ok::<Option<Sprite>, EcsError>(old(self)@.sprites.get(entity.id as int))
            } else {
                Err::<Option<Sprite>, EcsError>(EcsError::UnregisteredKind)
            }),
            final(self)@ == (WorldModel {
                sprites: old(self)@.sprites.remove(entity.id as int),
                ..old(self)@
            }),
    {
        if !self.has_sprites {
            proof {
                assert(self@.sprites.remove(entity.id as int) =~= self@.sprites);
            }
            return Err(EcsError::UnregisteredKind);
        }
        Ok(ws_take_sprite(&mut self.inner, entity.id))
    }

    /// Gives `entity` the animation `value`, in place of the one it had, if any.
    pub fn insert_animation(&mut self, entity: Entity, value: MovementAnimation) -> (result: Result<(), EcsError>)
        requires
            old(self).wf(),
        ensures
            final(self).wf(),
            result == old(self)@.access(ComponentKind::MovementAnimation, entity.id as int),
            result is Ok ==> final(self)@ == (WorldModel {
                animations: old(self)@.animations.insert(entity.id as int, value@),
                ..old(self)@
            }),
            result is Err ==> final(self)@ == old(self)@,
    {
        if !self.has_animations {
            return Err(EcsError::UnregisteredKind);
        }
        if entity.id >= self.count {
            return Err(EcsError::NoSuchEntity);
        }
        ws_put_animation(&mut self.inner, entity.id, value);
        Ok(())
    }

    /// A copy of the animation of `entity`, if it has one.
    pub fn animation(&self, entity: Entity) -> (result: Result<Option<MovementAnimation>, EcsError>)
        requires
            self.wf(),
        ensures
            result is Ok == self@.registered.contains(ComponentKind::MovementAnimation),
            result is Err ==> result == Err::<Option<MovementAnimation>, EcsError>(
                EcsError::UnregisteredKind,
            ),
            result matches Ok(found) ==> found is Some == self@.animations.contains_key(
                entity.id as int,
            ),
            result matches Ok(Some(animation)) ==> animation@ == self@.animations[entity.id as int],
    {
        if !self.has_animations {
            return Err(EcsError::UnregisteredKind);
        }
        Ok(ws_animation(&self.inner, entity.id))
    }

    /// Takes the animation of `entity` out of the world, if it has one.
    pub fn remove_animation(&mut self, entity: Entity) -> (result: Result<
        Option<MovementAnimation>,
        EcsError,
    >)
        requires
            old(self).wf(),
        ensures
            final(self).wf(),
            result is Ok == old(self)@.registered.contains(ComponentKind::MovementAnimation),
            result is Err ==> result == Err::<Option<MovementAnimation>, EcsError>(
                EcsError::UnregisteredKind,
            ),
            result matches Ok(taken) ==> taken is Some == old(self)@.animations.contains_key(
                entity.id as int,
            ),
            result matches Ok(Some(animation)) ==> animation@ == old(self)@.animations[entity.id as int],
            final(self)@ == (WorldModel {
                animations: old(self)@.animations.remove(entity.id as int),
                ..old(self)@
            }),
    {
        if !self.has_animations {
            proof {
                assert(self@.animations.remove(entity.id as int) =~= self@.animations);
            }
            return Err(EcsError::UnregisteredKind);
        }
        Ok(ws_take_animation(&mut self.inner, entity.id))
    }

    /// Marks `entity` as controlled by the movement command.
    pub fn insert_controlled(&mut self, entity: Entity, tag: KeyboardControlled) -> (result: Result<
        (),
        EcsError,
    >)
        requires
            old(self).wf(),
        ensures
            final(self).wf(),
            result == old(self)@.access(ComponentKind::KeyboardControlled, entity.id as int),
            result is Ok ==> final(self)@ == (WorldModel {
                controlled: old(self)@.controlled.insert(entity.id as int),
                ..old(self)@
            }),
            result is Err ==> final(self)@ == old(self)@,
    {
        if !self.has_controlled {
            return Err(EcsError::UnregisteredKind);
        }
        if entity.id >= self.count {
            return Err(EcsError::NoSuchEntity);
        }
        ws_put_controlled(&mut self.inner, entity.id);
        Ok(())
    }

    /// Whether `entity` is controlled by the movement command.
    pub fn controlled(&self, entity: Entity) -> (result: Result<bool, EcsError>)
        requires
            self.wf(),
        ensures
            result == (if self@.registered.contains(ComponentKind::KeyboardControlled) {
                Ok::<bool, EcsError>(self@.controlled.contains(entity.id as int))
            } else {
                Err::<bool, EcsError>(EcsError::UnregisteredKind)
            }),
    {
        if !self.has_controlled {
            return Err(EcsError::UnregisteredKind);
        }
        Ok(ws_is_controlled(&self.inner, entity.id))
    }

    /// Takes the mark of control from `entity`, and says whether it had one.
    pub fn remove_controlled(&mut self, entity: Entity) -> (result: Result<bool, EcsError>)
        requires
            old(self).wf(),
        ensures
            final(self).wf(),
            result == (if old(self)@.registered.contains(ComponentKind::KeyboardControlled) {
                Ok::<bool, EcsError>(old(self)@.controlled.contains(entity.id as int))
            } else {
                Err::<bool, EcsError>(EcsError::UnregisteredKind)
            }),
            final(self)@ == (WorldModel {
                controlled: old(self)@.controlled.remove(entity.id as int),
                ..old(self)@
            }),
    {
        if !self.has_controlled {
            proof {
                assert(self@.controlled.remove(entity.id as int) =~= self@.controlled);
            }
            return Err(EcsError::UnregisteredKind);
        }
        Ok(ws_take_controlled(&mut self.inner, entity.id))
    }

    /// Whether `entity` has a component of `kind`.
    pub fn has_component(&self, entity: Entity, kind: ComponentKind) -> (result: Result<
        bool,
        EcsError,
    >)
        requires
            self.wf(),
        ensures
            result == (if self@.registered.contains(kind) {
                Ok::<bool, EcsError>(self@.has(kind, entity.id as int))
            } else {
                Err::<bool, EcsError>(EcsError::UnregisteredKind)
            }),
    {
        if !self.is_registered(kind) {
            return Err(EcsError::UnregisteredKind);
        }
        let held = match kind {
            ComponentKind::Position => ws_position(&self.inner, entity.id).is_some(),
            ComponentKind::Velocity => ws_velocity(&self.inner, entity.id).is_some(),
            ComponentKind::Sprite => ws_sprite(&self.inner, entity.id).is_some(),
            ComponentKind::MovementAnimation => ws_has_animation(&self.inner, entity.id),
            ComponentKind::KeyboardControlled => ws_is_controlled(&self.inner, entity.id),
        };
        Ok(held)
    }

    /// Whether the world has a store for each of `kinds`.
    pub fn all_registered(&self, kinds: &Vec<ComponentKind>) -> (all: bool)
        requires
            self.wf(),
        ensures
            all == forall|k: int|
                0 <= k < kinds@.len() ==> self@.registered.contains(#[trigger] kinds@[k]),
    {
        let mut at: usize = 0;
        while at < kinds.len()
            invariant
                self.wf(),
                0 <= at <= kinds.len(),
                forall|k: int| 0 <= k < at ==> self@.registered.contains(#[trigger] kinds@[k]),
            decreases kinds.len() - at,
        {
            if !self.is_registered(kinds[at]) {
                return false;
            }
            at += 1;
        }
        true
    }

    /// Whether `entity` has a component of each of `kinds`, all of which
    /// must be registered.
    fn has_each(&self, entity: Entity, kinds: &Vec<ComponentKind>) -> (all: bool)
        requires
            self.wf(),
            forall|k: int| 0 <= k < kinds@.len() ==> self@.registered.contains(#[trigger] kinds@[k]),
        ensures
            all == forall|k: int|
                0 <= k < kinds@.len() ==> self@.has(#[trigger] kinds@[k], entity.id as int),
    {
        let mut at: usize = 0;
        while at < kinds.len()
            invariant
                self.wf(),
                0 <= at <= kinds.len(),
                forall|k: int|
                    0 <= k < kinds@.len() ==> self@.registered.contains(#[trigger] kinds@[k]),
                forall|k: int| 0 <= k < at ==> self@.has(#[trigger] kinds@[k], entity.id as int),
            decreases kinds.len() - at,
        {
            match self.has_component(entity, kinds[at]) {
                Ok(true) => {},
                _ => {
                    return false;
                },
            }
            at += 1;
        }
        true
    }

    /// The join: the entities that have a component of each of `kinds`,
    /// lowest id first. With no kind asked for, these are all the entities.
    /// `UnregisteredKind` where the world has no store for one of the kinds.
    pub fn join(&self, kinds: &Vec<ComponentKind>) -> (result: Result<Vec<Entity>, EcsError>)
        requires
            self.wf(),
        ensures
            result is Ok == (forall|k: int|
                0 <= k < kinds@.len() ==> self@.registered.contains(#[trigger] kinds@[k])),
            result is Err ==> result == Err::<Vec<Entity>, EcsError>(EcsError::UnregisteredKind),
            result matches Ok(entities) ==> lists(
                entities@.map_values(|entity: Entity| entity.id),
                |id: int| self@.has_all(kinds@, id),
            ),
    {
        if !self.all_registered(kinds) {
            return Err(EcsError::UnregisteredKind);
        }
        let mut entities: Vec<Entity> = Vec::new();
        let mut id: u32 = 0;
        while id < self.count
            invariant
                self.wf(),
                0 <= id <= self.count,
                forall|k: int|
                    0 <= k < kinds@.len() ==> self@.registered.contains(#[trigger] kinds@[k]),
                forall|i: int, j: int|
                    0 <= i < j < entities@.len() ==> entities@[i].id < entities@[j].id,
                forall|i: int|
                    0 <= i < entities@.len() ==> (#[trigger] entities@[i]).id < id
                        && self@.has_all(kinds@, entities@[i].id as int),
                forall|earlier: int|
                    0 <= earlier < id && #[trigger] self@.has_all(kinds@, earlier) ==> exists|i: int|
                        0 <= i < entities@.len() && (#[trigger] entities@[i]).id == earlier,
            decreases self.count - id,
        {
            let entity = Entity { id };
            if self.has_each(entity, kinds) {
                let ghost before = entities@;
                entities.push(entity);
                proof {
                    assert(entities@[before.len() as int].id == id);
                    assert forall|earlier: int|
                        0 <= earlier < id + 1 && #[trigger] self@.has_all(
                            kinds@,
                            earlier,
                        ) implies exists|i: int|
                        0 <= i < entities@.len() && (#[trigger] entities@[i]).id == earlier by {
                        if earlier < id {
                            let i = choose|i: int|
                                0 <= i < before.len() && (#[trigger] before[i]).id == earlier;
                            assert(entities@[i].id == earlier);
                        }
                    }
                }
            }
            id += 1;
        }
        proof {
            let ids = entities@.map_values(|entity: Entity| entity.id);
            let wanted = |id: int| self@.has_all(kinds@, id);
            assert forall|i: int| 0 <= i < ids.len() implies wanted(#[trigger] ids[i] as int) by {
                assert(self@.has_all(kinds@, entities@[i].id as int));
            }
            assert forall|wanted_id: int| #[trigger] wanted(wanted_id) implies 0 <= wanted_id
                <= u32::MAX && ids.contains(wanted_id as u32) by {
                assert(self@.has_all(kinds@, wanted_id));
                let i = choose|i: int|
                    0 <= i < entities@.len() && (#[trigger] entities@[i]).id == wanted_id;
                assert(ids[i] == wanted_id as u32);
            }
        }
        Ok(entities)
    }

    /// Whether `entity` has what the passes expect of it: if it is
    /// controlled, a velocity, and if it is animated, a velocity and a
    /// sprite.
    pub fn is_coherent_at(&self, entity: Entity) -> (coherent: bool)
        requires
            self.wf(),
        ensures
            coherent == self@.coherent_at(entity.id as int),
    {
        let id = entity.id;
        let controlled = self.has_controlled && ws_is_controlled(&self.inner, id);
        let animated = self.has_animations && ws_has_animation(&self.inner, id);
        let moving = self.has_velocities && ws_velocity(&self.inner, id).is_some();
        let drawn = self.has_sprites && ws_sprite(&self.inner, id).is_some();
        (!controlled || moving) && (!animated || (moving && drawn))
    }

    /// Whether every entity has what the passes expect of it.
    pub fn is_coherent(&self) -> (coherent: bool)
        requires
            self.wf(),
        ensures
            coherent == self@.coherent(),
    {
        let mut id: u32 = 0;
        while id < self.count
            invariant
                self.wf(),
                0 <= id <= self.count,
                forall|earlier: int| 0 <= earlier < id ==> #[trigger] self@.coherent_at(earlier),
            decreases self.count - id,
        {
            if !self.is_coherent_at(Entity { id }) {
                return false;
            }
            id += 1;
        }
        assert forall|any: int| #[trigger] self@.coherent_at(any) by {
            if !self@.is_live(any) {
                assert(!self@.controlled.contains(any));
                assert(!self@.animations.contains_key(any));
            }
        }
        true
    }

    /// Takes every component of `entity` out of the world. The entity itself
    /// stays, bare.
    pub fn strip_entity(&mut self, entity: Entity)
        requires
            old(self).wf(),
        ensures
            final(self).wf(),
            final(self)@ == (WorldModel {
                positions: old(self)@.positions.remove(entity.id as int),
                velocities: old(self)@.velocities.remove(entity.id as int),
                sprites: old(self)@.sprites.remove(entity.id as int),
                animations: old(self)@.animations.remove(entity.id as int),
                controlled: old(self)@.controlled.remove(entity.id as int),
                ..old(self)@
            }),
    {
        let ghost before = self@;
        if self.has_positions {
            let _ = ws_take_position(&mut self.inner, entity.id);
        }
        if self.has_velocities {
            let _ = ws_take_velocity(&mut self.inner, entity.id);
        }
        if self.has_sprites {
            let _ = ws_take_sprite(&mut self.inner, entity.id);
        }
        if self.has_animations {
            let _ = ws_take_animation(&mut self.inner, entity.id);
        }
        if self.has_controlled {
            let _ = ws_take_controlled(&mut self.inner, entity.id);
        }
        proof {
            assert(self@.positions =~= before.positions.remove(entity.id as int));
            assert(self@.velocities =~= before.velocities.remove(entity.id as int));
            assert(self@.sprites =~= before.sprites.remove(entity.id as int));
            assert(self@.animations =~= before.animations.remove(entity.id as int));
            assert(self@.controlled =~= before.controlled.remove(entity.id as int));
        }
    }

    /// Writes the movement command of the coming tick, or the absence of one.
    pub fn set_resource(&mut self, command: Option<MovementCommand>)
        requires
            old(self).wf(),
        ensures
            final(self).wf(),
            final(self)@ == (WorldModel { command: Some(command), ..old(self)@ }),
    {
        ws_set_command(&mut self.inner, command);
    }

    /// Reads the movement command. It is an error to read it before it was
    /// ever written.
    pub fn get_resource(&self) -> (command: Result<Option<MovementCommand>, EcsError>)
        requires
            self.wf(),
        ensures
            match self@.command {
                Some(written) => command == Ok::<Option<MovementCommand>, EcsError>(written),
                None => command == Err::<Option<MovementCommand>, EcsError>(
                    EcsError::MissingResource,
                ),
            },
    {
        match ws_command_now(&self.inner) {
            Some(written) => Ok(written),
            None => Err(EcsError::MissingResource),
        }
    }
}

} // verus!
