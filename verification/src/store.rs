//! The stores themselves. They live in a `specs::World`; this file is the
//! only one that calls into it.
//!
//! Verus cannot look inside a `specs::World`, so what a world holds is given
//! by the names below (`ws_positions` and its kin), and everything this file
//! says about the functions of `specs` is taken on trust from their source,
//! not proved. Every function here is a thin call; the logic that uses them
//! is in the other modules and is verified against these contracts.

use vstd::prelude::*;
use specs::{Builder, Join, WorldExt};
use crate::components::{
    AnimationView, KeyboardControlled, MovementAnimation, MovementCommand, Position, Sprite,
    Velocity,
};
use crate::join::lists;
use crate::model::{ComponentKind, WorldModel, MAX_ENTITIES};

verus! {

/// `specs::World` (the `World` of `shred`): the container of the stores,
/// the entity allocator and the resources. Nothing is known of its inside.
#[verifier::external_type_specification]
#[verifier::external_body]
pub struct ExWorld(specs::World);

/// `specs::VecStorage`: the storage that a component type names for
/// itself. It is only ever named, never touched.
#[verifier::external_type_specification]
#[verifier::external_body]
#[verifier::reject_recursive_types(T)]
pub struct ExVecStorage<T>(specs::VecStorage<T>);

/// `specs::NullStorage`: the storage of a tag. It is only ever named,
/// never touched.
#[verifier::external_type_specification]
#[verifier::external_body]
#[verifier::reject_recursive_types(T)]
pub struct ExNullStorage<T>(specs::NullStorage<T>);

impl specs::Component for Position {
    type Storage = specs::VecStorage<Self>;
}

impl specs::Component for Velocity {
    type Storage = specs::VecStorage<Self>;
}

impl specs::Component for Sprite {
    type Storage = specs::VecStorage<Self>;
}

impl specs::Component for MovementAnimation {
    type Storage = specs::VecStorage<Self>;
}

impl specs::Component for KeyboardControlled {
    type Storage = specs::NullStorage<Self>;
}

/// The number of entities created so far in a world that `ws_new` made and
/// from which no entity was deleted: such a world numbers its entities from
/// zero. For any other world it is above `MAX_ENTITIES`, which keeps such a
/// world out of every function below.
pub uninterp spec fn ws_allocated(w: specs::World) -> nat;

/// The kinds whose store a world has.
pub uninterp spec fn ws_registered(w: specs::World) -> Set<ComponentKind>;

/// The `Position` store of a world, by entity id.
pub uninterp spec fn ws_positions(w: specs::World) -> Map<int, Position>;

/// The `Velocity` store of a world, by entity id.
pub uninterp spec fn ws_velocities(w: specs::World) -> Map<int, Velocity>;

/// The `Sprite` store of a world, by entity id.
pub uninterp spec fn ws_sprites(w: specs::World) -> Map<int, Sprite>;

/// The `MovementAnimation` store of a world, by entity id.
pub uninterp spec fn ws_animations(w: specs::World) -> Map<int, AnimationView>;

/// The ids that carry the `KeyboardControlled` tag in a world.
pub uninterp spec fn ws_controlled(w: specs::World) -> Set<int>;

/// The `Option<MovementCommand>` resource of a world, `None` where the world
/// has no such resource.
pub uninterp spec fn ws_command(w: specs::World) -> Option<Option<MovementCommand>>;

/// All that a world holds, as one value.
pub open spec fn ws_model(w: specs::World) -> WorldModel {
    WorldModel {
        entities: ws_allocated(w),
        registered: ws_registered(w),
        positions: ws_positions(w),
        velocities: ws_velocities(w),
        sprites: ws_sprites(w),
        animations: ws_animations(w),
        controlled: ws_controlled(w),
        command: ws_command(w),
    }
}

/// Whether the functions below can be called on a world at all.
pub open spec fn ws_usable(w: specs::World) -> bool {
    ws_allocated(w) <= MAX_ENTITIES
}

/// What a store of `kind` holds after `register`: what it held, or nothing
/// where it is new.
pub open spec fn kept<V>(w: specs::World, kind: ComponentKind, held: Map<int, V>) -> Map<int, V> {
    if ws_registered(w).contains(kind) {
        held
    } else {
        Map::empty()
    }
}

/// `WorldExt::new`: a world with the entity allocator of `specs` in it and
/// nothing else: no store, no entity, no resource.
#[verifier::external_body]
pub(crate) fn ws_new() -> (w: specs::World)
    ensures
        ws_allocated(w) == 0,
        ws_model(w) == WorldModel::empty(),
{
    let w: specs::World = WorldExt::new();
    w
}

/// `WorldExt::create_entity` and `Builder::build`: allocates the next id.
/// The contents of the stores stay; the new id is the count of the entities
/// before the call.
#[verifier::external_body]
pub(crate) fn ws_create(w: &mut specs::World) -> (id: u32)
    requires
        ws_allocated(*old(w)) < MAX_ENTITIES,
    ensures
        id == ws_allocated(*old(w)),
        ws_model(*final(w)) == (WorldModel {
            entities: ws_allocated(*old(w)) + 1,
            ..ws_model(*old(w))
        }),
{
    w.create_entity().build().id()
}

/// `WorldExt::register` for `Position`: adds an empty store unless the world
/// has one, and changes nothing else.
#[verifier::external_body]
pub(crate) fn ws_register_positions(w: &mut specs::World)
    requires
        ws_usable(*old(w)),
    ensures
        ws_model(*final(w)) == (WorldModel {
            registered: ws_registered(*old(w)).insert(ComponentKind::Position),
            positions: kept(*old(w), ComponentKind::Position, ws_positions(*old(w))),
            ..ws_model(*old(w))
        }),
{
    w.register::<Position>()
}

/// `WorldExt::register` for `Velocity`: adds an empty store unless the world
/// has one, and changes nothing else.
#[verifier::external_body]
pub(crate) fn ws_register_velocities(w: &mut specs::World)
    requires
        ws_usable(*old(w)),
    ensures
        ws_model(*final(w)) == (WorldModel {
            registered: ws_registered(*old(w)).insert(ComponentKind::Velocity),
            velocities: kept(*old(w), ComponentKind::Velocity, ws_velocities(*old(w))),
            ..ws_model(*old(w))
        }),
{
    w.register::<Velocity>()
}

/// `WorldExt::register` for `Sprite`: adds an empty store unless the world
/// has one, and changes nothing else.
#[verifier::external_body]
pub(crate) fn ws_register_sprites(w: &mut specs::World)
    requires
        ws_usable(*old(w)),
    ensures
        ws_model(*final(w)) == (WorldModel {
            registered: ws_registered(*old(w)).insert(ComponentKind::Sprite),
            sprites: kept(*old(w), ComponentKind::Sprite, ws_sprites(*old(w))),
            ..ws_model(*old(w))
        }),
{
    w.register::<Sprite>()
}

/// `WorldExt::register` for `MovementAnimation`: adds an empty store unless
/// the world has one, and changes nothing else.
#[verifier::external_body]
pub(crate) fn ws_register_animations(w: &mut specs::World)
    requires
        ws_usable(*old(w)),
    ensures
        ws_model(*final(w)) == (WorldModel {
            registered: ws_registered(*old(w)).insert(ComponentKind::MovementAnimation),
            animations: kept(*old(w), ComponentKind::MovementAnimation, ws_animations(*old(w))),
            ..ws_model(*old(w))
        }),
{
    w.register::<MovementAnimation>()
}

/// `WorldExt::register` for `KeyboardControlled`: adds an empty store unless
/// the world has one, and changes nothing else.
#[verifier::external_body]
pub(crate) fn ws_register_controlled(w: &mut specs::World)
    requires
        ws_usable(*old(w)),
    ensures
        ws_model(*final(w)) == (WorldModel {
            registered: ws_registered(*old(w)).insert(ComponentKind::KeyboardControlled),
            controlled: if ws_registered(*old(w)).contains(ComponentKind::KeyboardControlled) {
                ws_controlled(*old(w))
            } else {
                Set::empty()
            },
            ..ws_model(*old(w))
        }),
{
    w.register::<KeyboardControlled>()
}

/// `Storage::insert` on the `Position` store, for the entity that
/// `EntitiesRes::entity` gives for `id`: the store then holds `value` there,
/// whether or not it held something before.
#[verifier::external_body]
pub(crate) fn ws_put_position(w: &mut specs::World, id: u32, value: Position)
    requires
        ws_usable(*old(w)),
        ws_registered(*old(w)).contains(ComponentKind::Position),
        id < MAX_ENTITIES,
    ensures
        ws_model(*final(w)) == (WorldModel {
            positions: ws_positions(*old(w)).insert(id as int, value),
            ..ws_model(*old(w))
        }),
{
    let entity = w.entities().entity(id);
    let _ = w.write_storage::<Position>().insert(entity, value);
}

/// `Storage::insert` on the `Velocity` store: as for `Position`.
#[verifier::external_body]
pub(crate) fn ws_put_velocity(w: &mut specs::World, id: u32, value: Velocity)
    requires
        ws_usable(*old(w)),
        ws_registered(*old(w)).contains(ComponentKind::Velocity),
        id < MAX_ENTITIES,
    ensures
        ws_model(*final(w)) == (WorldModel {
            velocities: ws_velocities(*old(w)).insert(id as int, value),
            ..ws_model(*old(w))
        }),
{
    let entity = w.entities().entity(id);
    let _ = w.write_storage::<Velocity>().insert(entity, value);
}

/// `Storage::insert` on the `Sprite` store: as for `Position`.
#[verifier::external_body]
pub(crate) fn ws_put_sprite(w: &mut specs::World, id: u32, value: Sprite)
    requires
        ws_usable(*old(w)),
        ws_registered(*old(w)).contains(ComponentKind::Sprite),
        id < MAX_ENTITIES,
    ensures
        ws_model(*final(w)) == (WorldModel {
            sprites: ws_sprites(*old(w)).insert(id as int, value),
            ..ws_model(*old(w))
        }),
{
    let entity = w.entities().entity(id);
    let _ = w.write_storage::<Sprite>().insert(entity, value);
}

/// `Storage::insert` on the `MovementAnimation` store: as for `Position`.
#[verifier::external_body]
pub(crate) fn ws_put_animation(w: &mut specs::World, id: u32, value: MovementAnimation)
    requires
        ws_usable(*old(w)),
        ws_registered(*old(w)).contains(ComponentKind::MovementAnimation),
        id < MAX_ENTITIES,
    ensures
        ws_model(*final(w)) == (WorldModel {
            animations: ws_animations(*old(w)).insert(id as int, value@),
            ..ws_model(*old(w))
        }),
{
    let entity = w.entities().entity(id);
    let _ = w.write_storage::<MovementAnimation>().insert(entity, value);
}

/// `Storage::insert` on the `KeyboardControlled` store: the id then carries
/// the tag.
#[verifier::external_body]
pub(crate) fn ws_put_controlled(w: &mut specs::World, id: u32)
    requires
        ws_usable(*old(w)),
        ws_registered(*old(w)).contains(ComponentKind::KeyboardControlled),
        id < MAX_ENTITIES,
    ensures
        ws_model(*final(w)) == (WorldModel {
            controlled: ws_controlled(*old(w)).insert(id as int),
            ..ws_model(*old(w))
        }),
{
    let entity = w.entities().entity(id);
    let _ = w.write_storage::<KeyboardControlled>().insert(entity, KeyboardControlled);
}

/// `Storage::get` on the `Position` store: a copy of what the store holds
/// for `id`, if anything.
#[verifier::external_body]
pub(crate) fn ws_position(w: &specs::World, id: u32) -> (found: Option<Position>)
    requires
        ws_usable(*w),
        ws_registered(*w).contains(ComponentKind::Position),
    ensures
        found == ws_positions(*w).get(id as int),
{
    let entity = w.entities().entity(id);
    w.read_storage::<Position>().get(entity).copied()
}

/// `Storage::get` on the `Velocity` store: as for `Position`.
#[verifier::external_body]
pub(crate) fn ws_velocity(w: &specs::World, id: u32) -> (found: Option<Velocity>)
    requires
        ws_usable(*w),
        ws_registered(*w).contains(ComponentKind::Velocity),
    ensures
        found == ws_velocities(*w).get(id as int),
{
    let entity = w.entities().entity(id);
    w.read_storage::<Velocity>().get(entity).copied()
}

/// `Storage::get` on the `Sprite` store: as for `Position`.
#[verifier::external_body]
pub(crate) fn ws_sprite(w: &specs::World, id: u32) -> (found: Option<Sprite>)
    requires
        ws_usable(*w),
        ws_registered(*w).contains(ComponentKind::Sprite),
    ensures
        found == ws_sprites(*w).get(id as int),
{
    let entity = w.entities().entity(id);
    w.read_storage::<Sprite>().get(entity).copied()
}

/// `Storage::get` on the `MovementAnimation` store: a clone of what the
/// store holds for `id`, if anything.
#[verifier::external_body]
pub(crate) fn ws_animation(w: &specs::World, id: u32) -> (found: Option<MovementAnimation>)
    requires
        ws_usable(*w),
        ws_registered(*w).contains(ComponentKind::MovementAnimation),
    ensures
        found is Some == ws_animations(*w).contains_key(id as int),
        found matches Some(animation) ==> animation@ == ws_animations(*w)[id as int],
{
    let entity = w.entities().entity(id);
    w.read_storage::<MovementAnimation>().get(entity).cloned()
}

/// `Storage::contains` on the `MovementAnimation` store.
#[verifier::external_body]
pub(crate) fn ws_has_animation(w: &specs::World, id: u32) -> (held: bool)
    requires
        ws_usable(*w),
        ws_registered(*w).contains(ComponentKind::MovementAnimation),
    ensures
        held == ws_animations(*w).contains_key(id as int),
{
    let entity = w.entities().entity(id);
    w.read_storage::<MovementAnimation>().contains(entity)
}

/// `Storage::contains` on the `KeyboardControlled` store.
#[verifier::external_body]
pub(crate) fn ws_is_controlled(w: &specs::World, id: u32) -> (tagged: bool)
    requires
        ws_usable(*w),
        ws_registered(*w).contains(ComponentKind::KeyboardControlled),
    ensures
        tagged == ws_controlled(*w).contains(id as int),
{
    let entity = w.entities().entity(id);
    w.read_storage::<KeyboardControlled>().contains(entity)
}

/// `Storage::remove` on the `Position` store: hands out what the store held
/// for `id`, if anything, and the store holds nothing there afterwards.
#[verifier::external_body]
pub(crate) fn ws_take_position(w: &mut specs::World, id: u32) -> (taken: Option<Position>)
    requires
        ws_usable(*old(w)),
        ws_registered(*old(w)).contains(ComponentKind::Position),
    ensures
        taken == ws_positions(*old(w)).get(id as int),
        ws_model(*final(w)) == (WorldModel {
            positions: ws_positions(*old(w)).remove(id as int),
            ..ws_model(*old(w))
        }),
{
    let entity = w.entities().entity(id);
    w.write_storage::<Position>().remove(entity)
}

/// `Storage::remove` on the `Velocity` store: as for `Position`.
#[verifier::external_body]
pub(crate) fn ws_take_velocity(w: &mut specs::World, id: u32) -> (taken: Option<Velocity>)
    requires
        ws_usable(*old(w)),
        ws_registered(*old(w)).contains(ComponentKind::Velocity),
    ensures
        taken == ws_velocities(*old(w)).get(id as int),
        ws_model(*final(w)) == (WorldModel {
            velocities: ws_velocities(*old(w)).remove(id as int),
            ..ws_model(*old(w))
        }),
{
    let entity = w.entities().entity(id);
    w.write_storage::<Velocity>().remove(entity)
}

/// `Storage::remove` on the `Sprite` store: as for `Position`.
#[verifier::external_body]
pub(crate) fn ws_take_sprite(w: &mut specs::World, id: u32) -> (taken: Option<Sprite>)
    requires
        ws_usable(*old(w)),
        ws_registered(*old(w)).contains(ComponentKind::Sprite),
    ensures
        taken == ws_sprites(*old(w)).get(id as int),
        ws_model(*final(w)) == (WorldModel {
            sprites: ws_sprites(*old(w)).remove(id as int),
            ..ws_model(*old(w))
        }),
{
    let entity = w.entities().entity(id);
    w.write_storage::<Sprite>().remove(entity)
}

/// `Storage::remove` on the `MovementAnimation` store: as for `Position`,
/// with the animation itself handed out.
#[verifier::external_body]
pub(crate) fn ws_take_animation(w: &mut specs::World, id: u32) -> (taken: Option<
    MovementAnimation,
>)
    requires
        ws_usable(*old(w)),
        ws_registered(*old(w)).contains(ComponentKind::MovementAnimation),
    ensures
        taken is Some == ws_animations(*old(w)).contains_key(id as int),
        taken matches Some(animation) ==> animation@ == ws_animations(*old(w))[id as int],
        ws_model(*final(w)) == (WorldModel {
            animations: ws_animations(*old(w)).remove(id as int),
            ..ws_model(*old(w))
        }),
{
    let entity = w.entities().entity(id);
    w.write_storage::<MovementAnimation>().remove(entity)
}

/// `Storage::remove` on the `KeyboardControlled` store: says whether the id
/// carried the tag, and it carries none afterwards.
#[verifier::external_body]
pub(crate) fn ws_take_controlled(w: &mut specs::World, id: u32) -> (tagged: bool)
    requires
        ws_usable(*old(w)),
        ws_registered(*old(w)).contains(ComponentKind::KeyboardControlled),
    ensures
        tagged == ws_controlled(*old(w)).contains(id as int),
        ws_model(*final(w)) == (WorldModel {
            controlled: ws_controlled(*old(w)).remove(id as int),
            ..ws_model(*old(w))
        }),
{
    let entity = w.entities().entity(id);
    w.write_storage::<KeyboardControlled>().remove(entity).is_some()
}

/// `Join::join` over the masks of the `KeyboardControlled` and `Velocity`
/// stores: the ids that have both, each once, lowest first.
#[verifier::external_body]
pub(crate) fn ws_steered(w: &specs::World) -> (ids: Vec<u32>)
    requires
        ws_usable(*w),
        ws_registered(*w).contains(ComponentKind::KeyboardControlled),
        ws_registered(*w).contains(ComponentKind::Velocity),
    ensures
        lists(ids@, |id: int| ws_controlled(*w).contains(id) && ws_velocities(*w).contains_key(id)),
{
    let (tags, velocities) = (w.read_storage::<KeyboardControlled>(), w.read_storage::<Velocity>());
    (tags.mask(), velocities.mask()).join().map(|(id, _)| id).collect()
}

/// `Join::join` over the masks of the `Position` and `Velocity` stores: the
/// ids that have both, each once, lowest first.
#[verifier::external_body]
pub(crate) fn ws_moving(w: &specs::World) -> (ids: Vec<u32>)
    requires
        ws_usable(*w),
        ws_registered(*w).contains(ComponentKind::Position),
        ws_registered(*w).contains(ComponentKind::Velocity),
    ensures
        lists(ids@, |id: int| ws_positions(*w).contains_key(id) && ws_velocities(*w).contains_key(id)),
{
    let (positions, velocities) = (w.read_storage::<Position>(), w.read_storage::<Velocity>());
    (positions.mask(), velocities.mask()).join().map(|(id, _)| id).collect()
}

/// `Join::join` over the masks of the `MovementAnimation`, `Sprite` and
/// `Velocity` stores: the ids that have all three, each once, lowest first.
#[verifier::external_body]
pub(crate) fn ws_animated(w: &specs::World) -> (ids: Vec<u32>)
    requires
        ws_usable(*w),
        ws_registered(*w).contains(ComponentKind::MovementAnimation),
        ws_registered(*w).contains(ComponentKind::Sprite),
        ws_registered(*w).contains(ComponentKind::Velocity),
    ensures
        lists(
            ids@,
            |id: int|
                ws_animations(*w).contains_key(id) && ws_sprites(*w).contains_key(id)
                    && ws_velocities(*w).contains_key(id),
        ),
{
    let animations = w.read_storage::<MovementAnimation>();
    let (sprites, velocities) = (w.read_storage::<Sprite>(), w.read_storage::<Velocity>());
    (animations.mask(), sprites.mask(), velocities.mask()).join().map(|(id, _, _)| id).collect()
}

/// `Join::join` over the masks of the `Position` and `Sprite` stores: the
/// ids that have both, each once, lowest first.
#[verifier::external_body]
pub(crate) fn ws_visible(w: &specs::World) -> (ids: Vec<u32>)
    requires
        ws_usable(*w),
        ws_registered(*w).contains(ComponentKind::Position),
        ws_registered(*w).contains(ComponentKind::Sprite),
    ensures
        lists(ids@, |id: int| ws_positions(*w).contains_key(id) && ws_sprites(*w).contains_key(id)),
{
    let (positions, sprites) = (w.read_storage::<Position>(), w.read_storage::<Sprite>());
    (positions.mask(), sprites.mask()).join().map(|(id, _)| id).collect()
}

/// `World::insert` of an `Option<MovementCommand>`: the resource is then
/// this value, whether or not the world had one before.
#[verifier::external_body]
pub(crate) fn ws_set_command(w: &mut specs::World, command: Option<MovementCommand>)
    requires
        ws_usable(*old(w)),
    ensures
        ws_model(*final(w)) == (WorldModel { command: Some(command), ..ws_model(*old(w)) }),
{
    w.insert(command)
}

/// `World::try_fetch` of the `Option<MovementCommand>` resource: a copy of
/// it, or `None` where the world has none.
#[verifier::external_body]
pub(crate) fn ws_command_now(w: &specs::World) -> (slot: Option<Option<MovementCommand>>)
    requires
        ws_usable(*w),
    ensures
        slot == ws_command(*w),
{
    w.try_fetch::<Option<MovementCommand>>().map(|command| *command)
}

} // verus!
