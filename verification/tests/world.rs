use walkabout::builder::EntityBuilder;
use walkabout::components::{
    Direction, KeyboardControlled, MovementAnimation, MovementCommand, Point, Position, Rect,
    Sprite, Velocity,
};
use walkabout::error::EcsError;
use walkabout::model::{ComponentKind, MAX_ENTITIES};
use walkabout::world::{Entity, GameWorld};

const KINDS: [ComponentKind; 5] = [
    ComponentKind::Position,
    ComponentKind::Velocity,
    ComponentKind::Sprite,
    ComponentKind::MovementAnimation,
    ComponentKind::KeyboardControlled,
];

fn sprite(n: i32) -> Sprite {
    Sprite { spritesheet: 1, region: Rect { x: n, y: 2 * n, w: 10, h: 12 } }
}

fn animation(first: i32) -> MovementAnimation {
    MovementAnimation {
        current_frame: 1,
        up_frames: vec![sprite(first)],
        down_frames: vec![sprite(first + 1), sprite(first + 2)],
        left_frames: vec![],
        right_frames: vec![sprite(first + 3)],
    }
}

fn registered() -> GameWorld {
    let mut world = GameWorld::new();
    for kind in KINDS {
        world.register_component_kind(kind);
    }
    world
}

#[test]
fn new_world_is_empty() {
    let world = GameWorld::new();
    assert_eq!(world.entity_count(), 0);
    for kind in KINDS {
        assert!(!world.is_registered(kind));
    }
    assert_eq!(world.get_resource(), Err(EcsError::MissingResource));
    assert!(!world.is_live(Entity { id: 0 }));
}

#[test]
fn registering_one_kind_registers_no_other() {
    let mut world = GameWorld::new();
    world.register_component_kind(ComponentKind::Sprite);
    for kind in KINDS {
        assert_eq!(world.is_registered(kind), kind == ComponentKind::Sprite);
    }
}

#[test]
fn registering_again_keeps_the_components() {
    let mut world = registered();
    let e = world.create_entity().with_position(Position(Point { x: 3, y: 4 })).build(&mut world).unwrap();
    world.register_component_kind(ComponentKind::Position);
    assert_eq!(world.position(e), Ok(Some(Position(Point { x: 3, y: 4 }))));
}

#[test]
fn entities_are_numbered_from_zero() {
    let mut world = registered();
    for expected in 0..5 {
        let e = EntityBuilder::new().build(&mut world).unwrap();
        assert_eq!(e, Entity { id: expected });
        assert!(world.is_live(e));
    }
    assert_eq!(world.entity_count(), 5);
    assert!(!world.is_live(Entity { id: 5 }));
}

#[test]
fn a_new_entity_has_only_what_it_was_built_with() {
    let mut world = registered();
    let e = world
        .create_entity()
        .with_velocity(Velocity { speed: 2, direction: Direction::Up })
        .with_keyboard_control()
        .build(&mut world)
        .unwrap();
    assert_eq!(world.position(e), Ok(None));
    assert_eq!(world.velocity(e), Ok(Some(Velocity { speed: 2, direction: Direction::Up })));
    assert_eq!(world.sprite(e), Ok(None));
    assert!(world.animation(e).unwrap().is_none());
    assert_eq!(world.controlled(e), Ok(true));
}

#[test]
fn building_with_an_unregistered_kind_creates_nothing() {
    let mut world = GameWorld::new();
    world.register_component_kind(ComponentKind::Position);
    let result = world
        .create_entity()
        .with_position(Position(Point { x: 0, y: 0 }))
        .with_sprite(sprite(0))
        .build(&mut world);
    assert_eq!(result, Err(EcsError::UnregisteredKind));
    assert_eq!(world.entity_count(), 0);
    let e = world.create_entity().with_position(Position(Point { x: 1, y: 1 })).build(&mut world);
    assert_eq!(e, Ok(Entity { id: 0 }));
}

#[test]
fn each_kind_must_be_registered_before_it_is_built_with() {
    for missing in KINDS {
        let mut world = GameWorld::new();
        for kind in KINDS {
            if kind != missing {
                world.register_component_kind(kind);
            }
        }
        let builder = world
            .create_entity()
            .with_position(Position(Point { x: 0, y: 0 }))
            .with_velocity(Velocity { speed: 0, direction: Direction::Down })
            .with_sprite(sprite(0))
            .with_animation(animation(0))
            .with_keyboard_control();
        assert_eq!(builder.build(&mut world), Err(EcsError::UnregisteredKind));
    }
}

#[test]
fn insert_then_get_then_remove_a_position() {
    let mut world = registered();
    let e = EntityBuilder::new().build(&mut world).unwrap();
    let other = EntityBuilder::new().build(&mut world).unwrap();
    assert_eq!(world.insert_position(e, Position(Point { x: -1, y: 8 })), Ok(()));
    assert_eq!(world.position(e), Ok(Some(Position(Point { x: -1, y: 8 }))));
    assert_eq!(world.position(other), Ok(None));
    assert_eq!(world.insert_position(e, Position(Point { x: 5, y: 5 })), Ok(()));
    assert_eq!(world.position(e), Ok(Some(Position(Point { x: 5, y: 5 }))));
    assert_eq!(world.remove_position(e), Ok(Some(Position(Point { x: 5, y: 5 }))));
    assert_eq!(world.position(e), Ok(None));
    assert_eq!(world.remove_position(e), Ok(None));
}

#[test]
fn insert_then_get_then_remove_a_velocity() {
    let mut world = registered();
    let e = EntityBuilder::new().build(&mut world).unwrap();
    let v = Velocity { speed: 9, direction: Direction::Right };
    assert_eq!(world.velocity(e), Ok(None));
    assert_eq!(world.insert_velocity(e, v), Ok(()));
    assert_eq!(world.velocity(e), Ok(Some(v)));
    assert_eq!(world.remove_velocity(e), Ok(Some(v)));
    assert_eq!(world.velocity(e), Ok(None));
}

#[test]
fn insert_then_get_then_remove_a_sprite() {
    let mut world = registered();
    let e = EntityBuilder::new().build(&mut world).unwrap();
    assert_eq!(world.sprite(e), Ok(None));
    assert_eq!(world.insert_sprite(e, sprite(4)), Ok(()));
    assert_eq!(world.sprite(e), Ok(Some(sprite(4))));
    assert_eq!(world.remove_sprite(e), Ok(Some(sprite(4))));
    assert_eq!(world.sprite(e), Ok(None));
}

#[test]
fn insert_then_get_then_remove_an_animation() {
    let mut world = registered();
    let e = EntityBuilder::new().build(&mut world).unwrap();
    assert!(world.animation(e).unwrap().is_none());
    assert_eq!(world.insert_animation(e, animation(7)), Ok(()));
    let found = world.animation(e).unwrap().unwrap();
    assert_eq!(found.current_frame, 1);
    assert_eq!(found.up_frames, vec![sprite(7)]);
    assert_eq!(found.down_frames, vec![sprite(8), sprite(9)]);
    assert_eq!(found.left_frames, vec![]);
    assert_eq!(found.right_frames, vec![sprite(10)]);
    let taken = world.remove_animation(e).unwrap().unwrap();
    assert_eq!(taken.down_frames, vec![sprite(8), sprite(9)]);
    assert!(world.animation(e).unwrap().is_none());
    assert!(world.remove_animation(e).unwrap().is_none());
}

#[test]
fn insert_then_get_then_remove_the_control_tag() {
    let mut world = registered();
    let e = EntityBuilder::new().build(&mut world).unwrap();
    assert_eq!(world.controlled(e), Ok(false));
    assert_eq!(world.insert_controlled(e, KeyboardControlled), Ok(()));
    assert_eq!(world.controlled(e), Ok(true));
    assert_eq!(world.remove_controlled(e), Ok(true));
    assert_eq!(world.controlled(e), Ok(false));
    assert_eq!(world.remove_controlled(e), Ok(false));
}

#[test]
fn stores_of_unregistered_kinds_refuse_every_call() {
    let mut world = GameWorld::new();
    let e = EntityBuilder::new().build(&mut world).unwrap();
    let unregistered = Err(EcsError::UnregisteredKind);
    assert_eq!(world.insert_position(e, Position(Point { x: 0, y: 0 })), unregistered);
    assert_eq!(world.position(e), Err(EcsError::UnregisteredKind));
    assert_eq!(world.remove_position(e), Err(EcsError::UnregisteredKind));
    assert_eq!(world.insert_velocity(e, Velocity { speed: 0, direction: Direction::Up }), unregistered);
    assert_eq!(world.velocity(e), Err(EcsError::UnregisteredKind));
    assert_eq!(world.remove_velocity(e), Err(EcsError::UnregisteredKind));
    assert_eq!(world.insert_sprite(e, sprite(0)), unregistered);
    assert_eq!(world.sprite(e), Err(EcsError::UnregisteredKind));
    assert_eq!(world.remove_sprite(e), Err(EcsError::UnregisteredKind));
    assert_eq!(world.insert_animation(e, animation(0)), unregistered);
    assert!(matches!(world.animation(e), Err(EcsError::UnregisteredKind)));
    assert!(matches!(world.remove_animation(e), Err(EcsError::UnregisteredKind)));
    assert_eq!(world.insert_controlled(e, KeyboardControlled), unregistered);
    assert_eq!(world.controlled(e), Err(EcsError::UnregisteredKind));
    assert_eq!(world.remove_controlled(e), Err(EcsError::UnregisteredKind));
}

#[test]
fn components_go_to_live_entities_only() {
    let mut world = registered();
    let ghost = Entity { id: 0 };
    let missing = Err(EcsError::NoSuchEntity);
    assert_eq!(world.insert_position(ghost, Position(Point { x: 0, y: 0 })), missing);
    assert_eq!(world.insert_velocity(ghost, Velocity { speed: 0, direction: Direction::Up }), missing);
    assert_eq!(world.insert_sprite(ghost, sprite(0)), missing);
    assert_eq!(world.insert_animation(ghost, animation(0)), missing);
    assert_eq!(world.insert_controlled(ghost, KeyboardControlled), missing);
    assert_eq!(world.position(ghost), Ok(None));
    let e = EntityBuilder::new().build(&mut world).unwrap();
    assert_eq!(e, ghost);
    assert_eq!(world.position(e), Ok(None));
    assert_eq!(world.controlled(e), Ok(false));
}

#[test]
fn unregistered_comes_before_no_such_entity() {
    let mut world = GameWorld::new();
    assert_eq!(
        world.insert_sprite(Entity { id: 3 }, sprite(0)),
        Err(EcsError::UnregisteredKind)
    );
}

#[test]
fn the_resource_is_what_was_last_set() {
    let mut world = GameWorld::new();
    assert_eq!(world.get_resource(), Err(EcsError::MissingResource));
    world.set_resource(None);
    assert_eq!(world.get_resource(), Ok(None));
    world.set_resource(Some(MovementCommand::Move(Direction::Left)));
    assert_eq!(world.get_resource(), Ok(Some(MovementCommand::Move(Direction::Left))));
    world.set_resource(Some(MovementCommand::Stop));
    assert_eq!(world.get_resource(), Ok(Some(MovementCommand::Stop)));
}

#[test]
fn the_default_command_is_stop() {
    assert_eq!(MovementCommand::default(), MovementCommand::Stop);
    assert_eq!(KeyboardControlled::default(), KeyboardControlled);
}

#[test]
fn a_full_world_takes_no_more_entities() {
    let mut world = GameWorld::new();
    world.register_component_kind(ComponentKind::KeyboardControlled);
    for _ in 0..MAX_ENTITIES {
        EntityBuilder::new().build(&mut world).unwrap();
    }
    assert_eq!(world.entity_count(), 1_048_576);
    assert_eq!(EntityBuilder::new().build(&mut world), Err(EcsError::WorldFull));
    assert_eq!(world.entity_count(), MAX_ENTITIES);
    let last = Entity { id: MAX_ENTITIES - 1 };
    assert_eq!(world.insert_controlled(last, KeyboardControlled), Ok(()));
    assert_eq!(world.controlled(last), Ok(true));
}

#[test]
fn a_stripped_entity_is_bare_and_alive() {
    let mut world = registered();
    let keep = world
        .create_entity()
        .with_position(Position(Point { x: 1, y: 1 }))
        .with_keyboard_control()
        .build(&mut world)
        .unwrap();
    let e = world
        .create_entity()
        .with_position(Position(Point { x: 2, y: 2 }))
        .with_velocity(Velocity { speed: 1, direction: Direction::Up })
        .with_sprite(sprite(1))
        .with_animation(animation(1))
        .with_keyboard_control()
        .build(&mut world)
        .unwrap();
    world.strip_entity(e);
    assert!(world.is_live(e));
    assert_eq!(world.position(e), Ok(None));
    assert_eq!(world.velocity(e), Ok(None));
    assert_eq!(world.sprite(e), Ok(None));
    assert!(world.animation(e).unwrap().is_none());
    assert_eq!(world.controlled(e), Ok(false));
    assert_eq!(world.position(keep), Ok(Some(Position(Point { x: 1, y: 1 }))));
    assert_eq!(world.controlled(keep), Ok(true));
    assert_eq!(world.entity_count(), 2);
}

#[test]
fn stripping_works_with_few_kinds_registered() {
    let mut world = GameWorld::new();
    world.register_component_kind(ComponentKind::Sprite);
    let e = world.create_entity().with_sprite(sprite(3)).build(&mut world).unwrap();
    world.strip_entity(e);
    assert_eq!(world.sprite(e), Ok(None));
    assert_eq!(world.position(e), Err(EcsError::UnregisteredKind));
}

#[test]
fn join_lists_the_entities_that_have_every_kind() {
    let mut world = registered();
    let both = world
        .create_entity()
        .with_position(Position(Point { x: 0, y: 0 }))
        .with_velocity(Velocity { speed: 1, direction: Direction::Up })
        .build(&mut world)
        .unwrap();
    let placed = world.create_entity().with_position(Position(Point { x: 0, y: 0 })).build(&mut world).unwrap();
    let bare = EntityBuilder::new().build(&mut world).unwrap();
    let all = world
        .create_entity()
        .with_position(Position(Point { x: 0, y: 0 }))
        .with_velocity(Velocity { speed: 1, direction: Direction::Up })
        .with_sprite(sprite(0))
        .with_animation(animation(0))
        .with_keyboard_control()
        .build(&mut world)
        .unwrap();
    assert_eq!(world.join(&vec![]), Ok(vec![both, placed, bare, all]));
    assert_eq!(world.join(&vec![ComponentKind::Position]), Ok(vec![both, placed, all]));
    assert_eq!(
        world.join(&vec![ComponentKind::Position, ComponentKind::Velocity]),
        Ok(vec![both, all])
    );
    assert_eq!(
        world.join(&vec![
            ComponentKind::MovementAnimation,
            ComponentKind::Sprite,
            ComponentKind::Velocity
        ]),
        Ok(vec![all])
    );
    assert_eq!(
        world.join(&vec![ComponentKind::KeyboardControlled, ComponentKind::Velocity]),
        Ok(vec![all])
    );
    world.strip_entity(all);
    assert_eq!(world.join(&vec![ComponentKind::KeyboardControlled]), Ok(vec![]));
}

#[test]
fn join_needs_every_kind_registered() {
    let mut world = GameWorld::new();
    world.register_component_kind(ComponentKind::Position);
    assert_eq!(
        world.join(&vec![ComponentKind::Position, ComponentKind::Velocity]),
        Err(EcsError::UnregisteredKind)
    );
    assert!(world.all_registered(&vec![ComponentKind::Position]));
    assert!(!world.all_registered(&vec![ComponentKind::Position, ComponentKind::Sprite]));
    assert!(world.all_registered(&vec![]));
}

#[test]
fn has_component_tells_each_kind_apart() {
    let mut world = registered();
    let e = world
        .create_entity()
        .with_sprite(sprite(0))
        .with_animation(animation(0))
        .build(&mut world)
        .unwrap();
    assert_eq!(world.has_component(e, ComponentKind::Position), Ok(false));
    assert_eq!(world.has_component(e, ComponentKind::Velocity), Ok(false));
    assert_eq!(world.has_component(e, ComponentKind::Sprite), Ok(true));
    assert_eq!(world.has_component(e, ComponentKind::MovementAnimation), Ok(true));
    assert_eq!(world.has_component(e, ComponentKind::KeyboardControlled), Ok(false));
    assert_eq!(world.has_component(Entity { id: 9 }, ComponentKind::MovementAnimation), Ok(false));
    let empty = GameWorld::new();
    assert_eq!(empty.has_component(e, ComponentKind::Sprite), Err(EcsError::UnregisteredKind));
}

#[test]
fn coherence_asks_for_what_the_passes_need() {
    let mut world = registered();
    assert!(world.is_coherent());
    let steered = world
        .create_entity()
        .with_keyboard_control()
        .with_velocity(Velocity { speed: 0, direction: Direction::Up })
        .build(&mut world)
        .unwrap();
    let plain = world.create_entity().with_sprite(sprite(0)).build(&mut world).unwrap();
    assert!(world.is_coherent());
    let animated = world
        .create_entity()
        .with_animation(animation(0))
        .with_velocity(Velocity { speed: 0, direction: Direction::Up })
        .build(&mut world)
        .unwrap();
    assert!(world.is_coherent_at(steered));
    assert!(world.is_coherent_at(plain));
    assert!(!world.is_coherent_at(animated));
    assert!(!world.is_coherent());
    assert_eq!(world.insert_sprite(animated, sprite(1)), Ok(()));
    assert!(world.is_coherent());
    assert_eq!(world.remove_velocity(steered), Ok(Some(Velocity { speed: 0, direction: Direction::Up })));
    assert!(!world.is_coherent_at(steered));
    assert!(!world.is_coherent());
    assert!(world.is_coherent_at(Entity { id: 77 }));
}

#[test]
fn coherence_of_a_world_with_few_kinds() {
    let mut world = GameWorld::new();
    world.register_component_kind(ComponentKind::KeyboardControlled);
    assert!(world.is_coherent());
    let e = world.create_entity().with_keyboard_control().build(&mut world).unwrap();
    assert!(!world.is_coherent_at(e));
    assert!(!world.is_coherent());
}

#[test]
fn every_error_has_its_own_words() {
    let all = [
        EcsError::UnregisteredKind,
        EcsError::MissingResource,
        EcsError::IndexInvariantViolation,
        EcsError::NoSuchEntity,
        EcsError::PositionOverflow,
        EcsError::WorldFull,
    ];
    assert_eq!(
        EcsError::UnregisteredKind.describe(),
        "a component kind was used before it was registered"
    );
    assert_eq!(
        EcsError::MissingResource.describe(),
        "the movement command was read before it was set"
    );
    assert_eq!(
        EcsError::IndexInvariantViolation.describe(),
        "a moving entity has no frame for its direction"
    );
    assert_eq!(
        EcsError::NoSuchEntity.describe(),
        "a component was given to an entity that does not exist"
    );
    assert_eq!(EcsError::PositionOverflow.describe(), "a position left the range of its coordinates");
    assert_eq!(EcsError::WorldFull.describe(), "the world holds as many entities as it can");
    for (i, a) in all.iter().enumerate() {
        for (j, b) in all.iter().enumerate() {
            assert_eq!(a.describe() == b.describe(), i == j);
        }
    }
}
