use walkabout::components::{
    Direction, MovementAnimation, MovementCommand, Point, Position, Rect, Sprite, Velocity,
};
use walkabout::error::EcsError;
use walkabout::model::{ComponentKind, PLAYER_MOVEMENT_SPEED};
use walkabout::scheduler::{
    standard_declarations, run_in_order, ScheduleError, Scheduler, SystemDecl, SystemKind,
};
use walkabout::world::{Entity, GameWorld};

fn frame(column: i32, row: i32) -> Sprite {
    Sprite { spritesheet: 0, region: Rect { x: 26 * column, y: 36 * row, w: 26, h: 36 } }
}

fn frames(row: i32) -> Vec<Sprite> {
    vec![frame(0, row), frame(1, row), frame(2, row)]
}

fn world_with_player() -> (GameWorld, Entity) {
    let mut world = GameWorld::new();
    world.register_component_kind(ComponentKind::Position);
    world.register_component_kind(ComponentKind::Velocity);
    world.register_component_kind(ComponentKind::Sprite);
    world.register_component_kind(ComponentKind::MovementAnimation);
    world.register_component_kind(ComponentKind::KeyboardControlled);
    let animation = MovementAnimation {
        current_frame: 0,
        up_frames: frames(3),
        down_frames: frames(0),
        left_frames: frames(1),
        right_frames: frames(2),
    };
    let player = world
        .create_entity()
        .with_keyboard_control()
        .with_position(Position(Point { x: 0, y: 0 }))
        .with_velocity(Velocity { speed: 0, direction: Direction::Right })
        .with_sprite(frame(0, 2))
        .with_animation(animation)
        .build(&mut world)
        .unwrap();
    (world, player)
}

fn decl(system: SystemKind, depends_on: &[SystemKind]) -> SystemDecl {
    SystemDecl { system, depends_on: depends_on.to_vec() }
}

fn index(world: &GameWorld, e: Entity) -> usize {
    world.animation(e).unwrap().unwrap().current_frame
}

#[test]
fn three_ticks_of_the_game() {
    let (mut world, e) = world_with_player();
    let scheduler = Scheduler::standard();
    let speed = PLAYER_MOVEMENT_SPEED;

    world.set_resource(Some(MovementCommand::Move(Direction::Right)));
    assert_eq!(scheduler.tick(&mut world), Ok(()));
    assert_eq!(world.velocity(e), Ok(Some(Velocity { speed, direction: Direction::Right })));
    assert_eq!(world.position(e), Ok(Some(Position(Point { x: speed, y: 0 }))));
    assert_eq!(index(&world, e), 1);
    assert_eq!(world.sprite(e), Ok(Some(frame(1, 2))));

    world.set_resource(None);
    assert_eq!(scheduler.tick(&mut world), Ok(()));
    assert_eq!(world.velocity(e), Ok(Some(Velocity { speed, direction: Direction::Right })));
    assert_eq!(world.position(e), Ok(Some(Position(Point { x: 2 * speed, y: 0 }))));
    assert_eq!(index(&world, e), 2);
    assert_eq!(world.sprite(e), Ok(Some(frame(2, 2))));

    world.set_resource(Some(MovementCommand::Stop));
    assert_eq!(scheduler.tick(&mut world), Ok(()));
    assert_eq!(world.velocity(e), Ok(Some(Velocity { speed: 0, direction: Direction::Right })));
    assert_eq!(world.position(e), Ok(Some(Position(Point { x: 40, y: 0 }))));
    assert_eq!(index(&world, e), 2);
    assert_eq!(world.sprite(e), Ok(Some(frame(2, 2))));
}

#[test]
fn the_standard_plan_starts_with_the_input() {
    let scheduler = Scheduler::standard();
    assert_eq!(
        scheduler.order(),
        &vec![SystemKind::Keyboard, SystemKind::Physics, SystemKind::Animator]
    );
    let decls = standard_declarations();
    assert_eq!(decls.len(), 3);
    assert_eq!(decls[0].system, SystemKind::Keyboard);
    assert_eq!(decls[0].depends_on, vec![]);
    assert_eq!(decls[1].system, SystemKind::Physics);
    assert_eq!(decls[1].depends_on, vec![SystemKind::Keyboard]);
    assert_eq!(decls[2].system, SystemKind::Animator);
    assert_eq!(decls[2].depends_on, vec![SystemKind::Keyboard]);
}

#[test]
fn dependencies_come_first_whatever_the_order_of_declaration() {
    let scheduler = Scheduler::new(vec![
        decl(SystemKind::Physics, &[SystemKind::Animator]),
        decl(SystemKind::Animator, &[SystemKind::Keyboard]),
        decl(SystemKind::Keyboard, &[]),
    ])
    .unwrap();
    assert_eq!(
        scheduler.order(),
        &vec![SystemKind::Keyboard, SystemKind::Animator, SystemKind::Physics]
    );
}

#[test]
fn a_system_cannot_be_declared_twice() {
    let result = Scheduler::new(vec![
        decl(SystemKind::Keyboard, &[]),
        decl(SystemKind::Physics, &[SystemKind::Keyboard]),
        decl(SystemKind::Keyboard, &[]),
    ]);
    assert_eq!(result.err(), Some(ScheduleError::DuplicateSystem));
}

#[test]
fn a_dependency_must_be_declared() {
    let result = Scheduler::new(vec![decl(SystemKind::Physics, &[SystemKind::Keyboard])]);
    assert_eq!(result.err(), Some(ScheduleError::UnknownDependency));
}

#[test]
fn dependencies_must_not_go_round() {
    let result = Scheduler::new(vec![
        decl(SystemKind::Keyboard, &[SystemKind::Animator]),
        decl(SystemKind::Physics, &[SystemKind::Keyboard]),
        decl(SystemKind::Animator, &[SystemKind::Physics]),
    ]);
    assert_eq!(result.err(), Some(ScheduleError::CyclicDependency));
    let own = Scheduler::new(vec![decl(SystemKind::Physics, &[SystemKind::Physics])]);
    assert_eq!(own.err(), Some(ScheduleError::CyclicDependency));
}

#[test]
fn no_declarations_make_an_idle_scheduler() {
    let scheduler = Scheduler::new(vec![]).unwrap();
    assert_eq!(scheduler.order(), &vec![]);
    let (mut world, e) = world_with_player();
    assert_eq!(scheduler.tick(&mut world), Ok(()));
    assert_eq!(world.position(e), Ok(Some(Position(Point { x: 0, y: 0 }))));
}

#[test]
fn motion_uses_the_velocity_of_its_own_tick() {
    let (mut world, e) = world_with_player();
    let scheduler = Scheduler::standard();
    world.set_resource(Some(MovementCommand::Move(Direction::Up)));
    assert_eq!(scheduler.tick(&mut world), Ok(()));
    assert_eq!(world.position(e), Ok(Some(Position(Point { x: 0, y: -20 }))));
    world.set_resource(Some(MovementCommand::Move(Direction::Left)));
    assert_eq!(scheduler.tick(&mut world), Ok(()));
    assert_eq!(world.position(e), Ok(Some(Position(Point { x: -20, y: -20 }))));
    assert_eq!(world.sprite(e), Ok(Some(frame(2, 1))));
}

#[test]
fn motion_and_animation_run_in_either_order() {
    let orders = [
        vec![SystemKind::Keyboard, SystemKind::Physics, SystemKind::Animator],
        vec![SystemKind::Keyboard, SystemKind::Animator, SystemKind::Physics],
    ];
    for order in orders {
        let (mut world, e) = world_with_player();
        world.set_resource(Some(MovementCommand::Move(Direction::Down)));
        assert_eq!(run_in_order(&order, &mut world), Ok(()));
        assert_eq!(run_in_order(&order, &mut world), Ok(()));
        assert_eq!(world.position(e), Ok(Some(Position(Point { x: 0, y: 40 }))));
        assert_eq!(index(&world, e), 2);
        assert_eq!(world.sprite(e), Ok(Some(frame(2, 0))));
    }
}

#[test]
fn a_tick_stops_at_the_first_system_that_cannot_run() {
    let (mut world, e) = world_with_player();
    let scheduler = Scheduler::standard();
    assert_eq!(scheduler.tick(&mut world), Err(EcsError::MissingResource));
    assert_eq!(world.position(e), Ok(Some(Position(Point { x: 0, y: 0 }))));

    world.set_resource(Some(MovementCommand::Move(Direction::Right)));
    assert_eq!(world.insert_position(e, Position(Point { x: i32::MAX - 19, y: 0 })), Ok(()));
    assert_eq!(scheduler.tick(&mut world), Err(EcsError::PositionOverflow));
    assert_eq!(world.velocity(e), Ok(Some(Velocity { speed: 20, direction: Direction::Right })));
    assert_eq!(world.position(e), Ok(Some(Position(Point { x: i32::MAX - 19, y: 0 }))));
    assert_eq!(index(&world, e), 0);
}

#[test]
fn a_system_that_reports_an_error_has_served_the_other_entities() {
    let (mut world, e) = world_with_player();
    let edge = world
        .create_entity()
        .with_position(Position(Point { x: 0, y: i32::MAX }))
        .with_velocity(Velocity { speed: 1, direction: Direction::Down })
        .build(&mut world)
        .unwrap();
    let scheduler = Scheduler::standard();
    world.set_resource(Some(MovementCommand::Move(Direction::Left)));
    assert_eq!(scheduler.tick(&mut world), Err(EcsError::PositionOverflow));
    assert_eq!(world.velocity(e), Ok(Some(Velocity { speed: 20, direction: Direction::Left })));
    assert_eq!(world.position(e), Ok(Some(Position(Point { x: -20, y: 0 }))));
    assert_eq!(world.position(edge), Ok(Some(Position(Point { x: 0, y: i32::MAX }))));
    assert_eq!(index(&world, e), 0);
    assert_eq!(world.sprite(e), Ok(Some(frame(0, 2))));
}

#[test]
fn each_system_runs_by_its_name() {
    let (mut world, e) = world_with_player();
    world.set_resource(Some(MovementCommand::Move(Direction::Left)));
    assert_eq!(SystemKind::Physics.run(&mut world), Ok(()));
    assert_eq!(world.position(e), Ok(Some(Position(Point { x: 0, y: 0 }))));
    assert_eq!(SystemKind::Keyboard.run(&mut world), Ok(()));
    assert_eq!(SystemKind::Animator.run(&mut world), Ok(()));
    assert_eq!(SystemKind::Physics.run(&mut world), Ok(()));
    assert_eq!(world.position(e), Ok(Some(Position(Point { x: -20, y: 0 }))));
    assert_eq!(index(&world, e), 1);
}

#[test]
fn the_systems_declare_what_they_touch() {
    let kinds = [
        ComponentKind::Position,
        ComponentKind::Velocity,
        ComponentKind::Sprite,
        ComponentKind::MovementAnimation,
        ComponentKind::KeyboardControlled,
    ];
    for kind in kinds {
        assert_eq!(SystemKind::Keyboard.writes_kind(kind), kind == ComponentKind::Velocity);
        assert_eq!(SystemKind::Keyboard.reads_kind(kind), kind == ComponentKind::KeyboardControlled);
        assert_eq!(SystemKind::Physics.writes_kind(kind), kind == ComponentKind::Position);
        assert_eq!(SystemKind::Physics.reads_kind(kind), kind == ComponentKind::Velocity);
        assert_eq!(
            SystemKind::Animator.writes_kind(kind),
            kind == ComponentKind::Sprite || kind == ComponentKind::MovementAnimation
        );
        assert_eq!(SystemKind::Animator.reads_kind(kind), kind == ComponentKind::Velocity);
    }
}

#[test]
fn only_motion_and_animation_are_free_of_conflict() {
    let all = [SystemKind::Keyboard, SystemKind::Physics, SystemKind::Animator];
    for a in all {
        for b in all {
            let free = (a == SystemKind::Physics && b == SystemKind::Animator)
                || (a == SystemKind::Animator && b == SystemKind::Physics);
            assert_eq!(a.conflicts_with(b), !free);
        }
    }
}
