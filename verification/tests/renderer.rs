use walkabout::components::{Point, Position, Rect, Sprite};
use walkabout::error::EcsError;
use walkabout::model::ComponentKind;
use walkabout::renderer::{draw, place, render, DrawCommand, Placement};
use walkabout::world::{Entity, GameWorld};

fn sprite(sheet: usize, w: u32, h: u32) -> Sprite {
    Sprite { spritesheet: sheet, region: Rect { x: 26, y: 72, w, h } }
}

#[test]
fn the_origin_is_the_middle_of_the_screen() {
    assert_eq!(
        place(Point { x: 0, y: 0 }, 26, 36, 800, 600),
        Placement { x: 387, y: 282, w: 26, h: 36 }
    );
    assert_eq!(
        place(Point { x: -500, y: 40 }, 27, 37, 801, 601),
        Placement { x: -113, y: 322, w: 27, h: 37 }
    );
}

#[test]
fn placing_never_overflows() {
    assert_eq!(
        place(Point { x: i32::MAX, y: i32::MIN }, 0, u32::MAX, u32::MAX, 0),
        Placement { x: 2147483647 + 2147483647, y: -2147483648 - 2147483647, w: 0, h: u32::MAX }
    );
}

#[test]
fn a_draw_command_copies_the_region_of_the_sprite() {
    let command = draw(Entity { id: 9 }, Point { x: 20, y: 0 }, sprite(3, 26, 36), 800, 600);
    assert_eq!(
        command,
        DrawCommand {
            entity: Entity { id: 9 },
            spritesheet: 3,
            source: Rect { x: 26, y: 72, w: 26, h: 36 },
            target: Placement { x: 407, y: 282, w: 26, h: 36 },
        }
    );
}

#[test]
fn render_lists_the_entities_with_position_and_sprite() {
    let mut world = GameWorld::new();
    world.register_component_kind(ComponentKind::Position);
    world.register_component_kind(ComponentKind::Sprite);
    let a = world
        .create_entity()
        .with_position(Position(Point { x: 1, y: 2 }))
        .with_sprite(sprite(0, 10, 10))
        .build(&mut world)
        .unwrap();
    let _unplaced = world.create_entity().with_sprite(sprite(1, 10, 10)).build(&mut world).unwrap();
    let _unseen =
        world.create_entity().with_position(Position(Point { x: 5, y: 5 })).build(&mut world).unwrap();
    let b = world
        .create_entity()
        .with_position(Position(Point { x: -3, y: 4 }))
        .with_sprite(sprite(2, 20, 30))
        .build(&mut world)
        .unwrap();
    let commands = render(&world, 100, 50).unwrap();
    assert_eq!(
        commands,
        vec![
            DrawCommand {
                entity: a,
                spritesheet: 0,
                source: Rect { x: 26, y: 72, w: 10, h: 10 },
                target: Placement { x: 46, y: 22, w: 10, h: 10 },
            },
            DrawCommand {
                entity: b,
                spritesheet: 2,
                source: Rect { x: 26, y: 72, w: 20, h: 30 },
                target: Placement { x: 37, y: 14, w: 20, h: 30 },
            },
        ]
    );
    assert_eq!(world.position(a), Ok(Some(Position(Point { x: 1, y: 2 }))));
}

#[test]
fn render_of_an_empty_world_is_empty() {
    let mut world = GameWorld::new();
    world.register_component_kind(ComponentKind::Position);
    world.register_component_kind(ComponentKind::Sprite);
    assert_eq!(render(&world, 800, 600), Ok(vec![]));
}

#[test]
fn render_needs_its_stores() {
    let mut world = GameWorld::new();
    assert_eq!(render(&world, 800, 600), Err(EcsError::UnregisteredKind));
    world.register_component_kind(ComponentKind::Position);
    assert_eq!(render(&world, 800, 600), Err(EcsError::UnregisteredKind));
}

#[test]
fn render_keeps_to_the_order_of_the_ids_in_a_large_world() {
    let mut world = GameWorld::new();
    world.register_component_kind(ComponentKind::Position);
    world.register_component_kind(ComponentKind::Sprite);
    let mut expected = Vec::new();
    for n in 0..5000u32 {
        let mut builder = world.create_entity();
        if n % 3 != 0 {
            builder = builder.with_position(Position(Point { x: n as i32, y: 0 }));
        }
        if n % 7 != 0 {
            builder = builder.with_sprite(sprite(n as usize, 2, 2));
        }
        let e = builder.build(&mut world).unwrap();
        assert_eq!(e, Entity { id: n });
        if n % 3 != 0 && n % 7 != 0 {
            expected.push(n);
        }
    }
    let commands = render(&world, 0, 0).unwrap();
    let ids: Vec<u32> = commands.iter().map(|command| command.entity.id).collect();
    assert_eq!(ids, expected);
    for command in &commands {
        assert_eq!(command.spritesheet, command.entity.id as usize);
        assert_eq!(command.target.x, command.entity.id as i64 - 1);
    }
    assert_eq!(
        world.join(&vec![ComponentKind::Sprite, ComponentKind::Position]),
        Ok(expected.iter().map(|id| Entity { id: *id }).collect())
    );
}
