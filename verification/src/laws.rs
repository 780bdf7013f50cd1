//! What holds of the passes, whatever the world: stated over the model and
//! proved from the definitions of the three steps.
//!
//! A call of `Keyboard::run`, `Physics::run` or `Animator::run` takes a
//! world to its `input_step`, `motion_step` or `animation_step` whatever the
//! call reports, so what is said here of so many steps in a row holds of so
//! many calls in a row, failed ones among them.

use vstd::prelude::*;
use crate::components::{Direction, MovementCommand, Point, Position, Velocity};
use crate::model::{
    displaced, displaced_x, displaced_y, displacement_fits, moved, next_frame, WorldModel,
    PLAYER_MOVEMENT_SPEED,
};
use crate::scheduler::{
    before, honours, is_standard, names, ticked, SystemDecl, SystemKind,
};

verus! {

/// The world after `system` has run `times` times in a row, whatever it
/// reported each time.
pub open spec fn repeated(system: SystemKind, world: WorldModel, times: nat) -> WorldModel
    decreases times,
{
    if times == 0 {
        world
    } else {
        system.step(repeated(system, world, (times - 1) as nat))
    }
}

/// An entity that stands still keeps its animation and its sprite through
/// the animation pass, whatever its direction.
pub proof fn law_standing_still_keeps_the_frame(world: WorldModel, id: int)
    requires
        world.velocities.contains_key(id),
        world.velocities[id].speed == 0,
    ensures
        world.animation_step().animations.get(id) == world.animations.get(id),
        world.animation_step().sprites.get(id) == world.sprites.get(id),
{
}

/// The animation pass touches nothing but animations and sprites, and gives
/// no entity a component or takes one away.
pub proof fn law_animation_touches_only_what_it_shows(world: WorldModel)
    ensures
        world.animation_step().animations.dom() == world.animations.dom(),
        world.animation_step().sprites.dom() == world.sprites.dom(),
        world.animation_step() == (WorldModel {
            animations: world.animation_step().animations,
            sprites: world.animation_step().sprites,
            ..world
        }),
{
    assert(world.animation_step().animations.dom() =~= world.animations.dom());
    assert(world.animation_step().sprites.dom() =~= world.sprites.dom());
}

/// The frame index reached from `current` after `times` steps round a cycle
/// of `len` frames.
pub open spec fn frame_after(current: nat, len: nat, times: nat) -> nat {
    if times == 0 {
        current
    } else {
        (((current + times) as int) % (len as int)) as nat
    }
}

/// After so many animation passes, a moving entity with frames for its
/// direction shows the frame that lies so many steps further round the
/// cycle; its velocity and its frame sequences are what they were.
pub proof fn lemma_animation_after(world: WorldModel, id: int, times: nat)
    requires
        world.animated(id),
        world.velocities[id].speed != 0,
        world.animations[id].frames(world.velocities[id].direction).len() > 0,
    ensures
        repeated(SystemKind::Animator, world, times).animated(id),
        repeated(SystemKind::Animator, world, times).velocities == world.velocities,
        repeated(SystemKind::Animator, world, times).animations[id] == world.animations[id].at_frame(
            frame_after(
                world.animations[id].current_frame,
                world.animations[id].frames(world.velocities[id].direction).len(),
                times,
            ),
        ),
    decreases times,
{
    let len = world.animations[id].frames(world.velocities[id].direction).len() as int;
    let current = world.animations[id].current_frame as int;
    if times > 0 {
        let earlier = repeated(SystemKind::Animator, world, (times - 1) as nat);
        lemma_animation_after(world, id, (times - 1) as nat);
        assert(earlier.animations[id].frames(world.velocities[id].direction)
            == world.animations[id].frames(world.velocities[id].direction));
        if times > 1 {
            assert(((current + times - 1) % len + 1) % len == (current + times) % len) by {
                vstd::arithmetic::div_mod::lemma_add_mod_noop(current + times - 1, 1, len);
                if len > 1 {
                    vstd::arithmetic::div_mod::lemma_small_mod(1, len as nat);
                }
            }
        }
    }
}

/// Going round a cycle of `len` places from one of them, the starting place
/// comes up again after `len` steps and not before.
pub proof fn lemma_cycle(current: nat, len: nat, times: nat)
    requires
        current < len,
        0 < times <= len,
    ensures
        (frame_after(current, len, times) == current) == (times == len),
{
    let reached = current + times;
    if reached < len {
        vstd::arithmetic::div_mod::lemma_small_mod(reached, len);
    } else {
        vstd::arithmetic::div_mod::lemma_mod_sub_multiples_vanish(reached as int, len as int);
        vstd::arithmetic::div_mod::lemma_small_mod((reached - len) as nat, len);
    }
}

/// A moving entity whose frame index is within the sequence of its direction
/// shows the same frame again after as many animation passes as the sequence
/// has frames, and not before. This holds whatever the passes report: what
/// other entities have or lack does not matter.
pub proof fn law_animation_is_cyclic(world: WorldModel, id: int)
    requires
        world.animated(id),
        world.velocities[id].speed != 0,
        world.animations[id].current_frame < world.animations[id].frames(
            world.velocities[id].direction,
        ).len(),
    ensures
        repeated(
            SystemKind::Animator,
            world,
            world.animations[id].frames(world.velocities[id].direction).len(),
        ).animations[id] == world.animations[id],
        forall|times: nat|
            0 < times < world.animations[id].frames(world.velocities[id].direction).len()
                ==> (#[trigger] repeated(
                SystemKind::Animator,
                world,
                times,
            )).animations[id].current_frame != world.animations[id].current_frame,
{
    let len = world.animations[id].frames(world.velocities[id].direction).len();
    let current = world.animations[id].current_frame;
    lemma_animation_after(world, id, len);
    lemma_cycle(current, len, len);
    assert forall|times: nat| 0 < times < len implies (#[trigger] repeated(
        SystemKind::Animator,
        world,
        times,
    )).animations[id].current_frame != current by {
        lemma_animation_after(world, id, times);
        lemma_cycle(current, len, times);
    }
}

/// One animation pass takes the frame index of a moving entity to its
/// successor, which lies within the sequence of its direction.
pub proof fn law_animation_index_stays_valid(world: WorldModel, id: int)
    requires
        world.animated(id),
        world.velocities[id].speed != 0,
        world.animations[id].frames(world.velocities[id].direction).len() > 0,
    ensures
        world.animation_step().animations[id].current_frame == next_frame(
            world.animations[id].current_frame,
            world.animations[id].frames(world.velocities[id].direction).len(),
        ),
        world.animation_step().animations[id].current_frame < world.animations[id].frames(
            world.velocities[id].direction,
        ).len(),
        world.animation_step().sprites[id] == world.animations[id].frames(
            world.velocities[id].direction,
        )[world.animation_step().animations[id].current_frame as int],
{
}

/// How far one tick takes an entity along the x axis.
pub open spec fn stride_x(velocity: Velocity) -> int {
    displaced_x(0, velocity)
}

/// How far one tick takes an entity along the y axis.
pub open spec fn stride_y(velocity: Velocity) -> int {
    displaced_y(0, velocity)
}

/// Motion is linear: so many motion passes move an entity by so many times
/// its speed along the axis of its direction, and not at all along the
/// other, as long as the place it reaches lies within `i32`. This holds
/// whatever the passes report: where other entities are does not matter.
pub proof fn law_motion_is_linear(world: WorldModel, id: int, times: nat)
    requires
        world.moving(id),
        i32::MIN <= world.positions[id].0.x + times * stride_x(world.velocities[id]) <= i32::MAX,
        i32::MIN <= world.positions[id].0.y + times * stride_y(world.velocities[id]) <= i32::MAX,
    ensures
        repeated(SystemKind::Physics, world, times).moving(id),
        repeated(SystemKind::Physics, world, times).velocities == world.velocities,
        repeated(SystemKind::Physics, world, times).positions[id] == Position(
            Point {
                x: (world.positions[id].0.x + times * stride_x(world.velocities[id])) as i32,
                y: (world.positions[id].0.y + times * stride_y(world.velocities[id])) as i32,
            },
        ),
    decreases times,
{
    let dx = stride_x(world.velocities[id]);
    let dy = stride_y(world.velocities[id]);
    let x = world.positions[id].0.x as int;
    let y = world.positions[id].0.y as int;
    if times > 0 {
        assert((times - 1) * dx + dx == times * dx && (times - 1) * dy + dy == times * dy)
            by (nonlinear_arith);
        assert(x <= x + (times - 1) * dx <= x + times * dx || x >= x + (times - 1) * dx >= x
            + times * dx) by (nonlinear_arith)
            requires
                times > 0,
        ;
        assert(y <= y + (times - 1) * dy <= y + times * dy || y >= y + (times - 1) * dy >= y
            + times * dy) by (nonlinear_arith)
            requires
                times > 0,
        ;
        law_motion_is_linear(world, id, (times - 1) as nat);
    } else {
        assert(times * dx == 0 && times * dy == 0) by (nonlinear_arith)
            requires
                times == 0,
        ;
    }
}

/// With no new command the input pass changes nothing; `Stop` brings every
/// steered entity to rest and keeps its direction; `Move` gives it the
/// movement speed and the direction of the command. Entities that are not
/// controlled keep their velocity.
pub proof fn law_input_resolution(world: WorldModel, id: int)
    requires
        world.velocities.contains_key(id),
        world.command is Some,
    ensures
        world.command == Some(None::<MovementCommand>) ==> world.input_step() == world,
        !world.controlled.contains(id) ==> world.input_step().velocities[id]
            == world.velocities[id],
        world.controlled.contains(id) && world.command == Some(Some(MovementCommand::Stop))
            ==> world.input_step().velocities[id] == (Velocity {
            speed: 0,
            direction: world.velocities[id].direction,
        }),
        forall|direction: Direction|
            world.controlled.contains(id) && world.command == Some(
                Some(MovementCommand::Move(direction)),
            ) ==> world.input_step().velocities[id] == (Velocity {
                speed: PLAYER_MOVEMENT_SPEED,
                direction,
            }),
{
    if world.command == Some(None::<MovementCommand>) {
        assert(world.input_step().velocities =~= world.velocities);
    }
}

/// The motion pass and the animation pass do not depend on each other:
/// neither changes whether the other can run, and in either order they leave
/// the same world.
pub proof fn law_motion_and_animation_commute(world: WorldModel)
    ensures
        SystemKind::Physics.outcome(world.animation_step()) == SystemKind::Physics.outcome(world),
        SystemKind::Animator.outcome(world.motion_step()) == SystemKind::Animator.outcome(world),
        world.motion_step().animation_step() == world.animation_step().motion_step(),
        !SystemKind::Physics.conflicts(SystemKind::Animator),
{
    let shifted = world.motion_step();
    let drawn = world.animation_step();
    assert(shifted.positions.dom() =~= world.positions.dom());
    assert(drawn.animations.dom() =~= world.animations.dom());
    assert(drawn.sprites.dom() =~= world.sprites.dom());
    assert(drawn.motion_fits() == world.motion_fits()) by {
        if world.motion_fits() {
            assert forall|id: int| #[trigger] drawn.moving(id) implies displacement_fits(
                drawn.positions[id].0,
                drawn.velocities[id],
            ) by {
                assert(world.moving(id));
            }
        }
        if drawn.motion_fits() {
            assert forall|id: int| #[trigger] world.moving(id) implies displacement_fits(
                world.positions[id].0,
                world.velocities[id],
            ) by {
                assert(drawn.moving(id));
            }
        }
    }
    assert(shifted.has_frameless() == world.has_frameless()) by {
        if world.has_frameless() {
            let id = choose|id: int| #[trigger]
                world.animated(id) && crate::model::frameless(
                    world.animations[id],
                    world.velocities[id],
                );
            assert(shifted.animated(id));
        }
        if shifted.has_frameless() {
            let id = choose|id: int| #[trigger]
                shifted.animated(id) && crate::model::frameless(
                    shifted.animations[id],
                    shifted.velocities[id],
                );
            assert(world.animated(id));
        }
    }
    assert(shifted.animation_step().animations =~= drawn.motion_step().animations);
    assert(shifted.animation_step().sprites =~= drawn.motion_step().sprites);
    assert(shifted.animation_step().positions =~= drawn.motion_step().positions);
}

/// Whether `decls` makes `system` depend on `on`.
pub open spec fn depends(decls: Seq<SystemDecl>, system: SystemKind, on: SystemKind) -> bool {
    exists|i: int, k: int|
        0 <= i < decls.len() && 0 <= k < decls[i].depends_on@.len() && decls[i].system == system
            && #[trigger] decls[i].depends_on@[k] == on
}

/// The world as the motion pass sees it in a tick in which the input pass
/// runs before it: with the velocities that the input pass wrote.
pub open spec fn steered(world: WorldModel) -> WorldModel {
    WorldModel { velocities: world.input_step().velocities, ..world }
}

/// What the systems have made of the velocities and the positions part of
/// the way through a tick in which no system runs twice and the input pass
/// stands before the motion pass, as long as no system but the last of them
/// has reported an error: the velocities are those of the input pass once it
/// has run, and the positions have moved by exactly those.
pub proof fn lemma_tick_so_far(order: Seq<SystemKind>, world: WorldModel, upto: int)
    requires
        order.no_duplicates(),
        0 <= upto <= order.len(),
        upto > 0 ==> ticked(order.take(upto - 1), world).result is Ok,
        forall|p: int|
            0 <= p < order.len() && #[trigger] order[p] == SystemKind::Physics ==> before(
                order,
                SystemKind::Keyboard,
                p,
            ),
    ensures
        ticked(order.take(upto), world).world.command == world.command,
        ticked(order.take(upto), world).world.controlled == world.controlled,
        ticked(order.take(upto), world).world.velocities == (if order.take(upto).contains(
            SystemKind::Keyboard,
        ) {
            world.input_step().velocities
        } else {
            world.velocities
        }),
        ticked(order.take(upto), world).world.positions == (if order.take(upto).contains(
            SystemKind::Physics,
        ) {
            steered(world).motion_step().positions
        } else {
            world.positions
        }),
    decreases upto,
{
    let now = order.take(upto);
    if upto > 0 {
        let earlier = order.take(upto - 1);
        let system = order[upto - 1];
        assert(now.drop_last() =~= earlier);
        assert(now.last() == system);
        if upto > 1 {
            assert(earlier.drop_last() =~= order.take(upto - 2));
        }
        lemma_tick_so_far(order, world, upto - 1);
        let seen = ticked(earlier, world).world;
        assert(!earlier.contains(system)) by {
            if earlier.contains(system) {
                let q = choose|q: int| 0 <= q < earlier.len() && earlier[q] == system;
                assert(order[q] == order[upto - 1]);
            }
        }
        assert forall|other: SystemKind|
            now.contains(other) == (earlier.contains(other) || other == system) by {
            if earlier.contains(other) {
                let q = choose|q: int| 0 <= q < earlier.len() && earlier[q] == other;
                assert(now[q] == other);
            }
            if other == system {
                assert(now[upto - 1] == other);
            }
            if now.contains(other) {
                let q = choose|q: int| 0 <= q < now.len() && now[q] == other;
                if q < upto - 1 {
                    assert(earlier[q] == other);
                }
            }
        }
        match system {
            SystemKind::Keyboard => {
                assert(seen.input_step().velocities =~= world.input_step().velocities);
            },
            SystemKind::Physics => {
                assert(before(order, SystemKind::Keyboard, upto - 1));
                let q = choose|q: int| 0 <= q < upto - 1 && #[trigger] order[q] == SystemKind::Keyboard;
                assert(earlier[q] == SystemKind::Keyboard);
                assert(seen.motion_step().positions =~= steered(world).motion_step().positions);
            },
            SystemKind::Animator => {},
        }
    } else {
        assert(!now.contains(SystemKind::Keyboard));
        assert(!now.contains(SystemKind::Physics));
    }
}

/// Once the motion pass has run, the rest of the tick leaves the positions
/// as they are.
pub proof fn lemma_tick_keeps_positions(
    order: Seq<SystemKind>,
    world: WorldModel,
    from: int,
    upto: int,
)
    requires
        order.no_duplicates(),
        0 < from <= upto <= order.len(),
        order[from - 1] == SystemKind::Physics,
    ensures
        ticked(order.take(upto), world).world.positions == ticked(
            order.take(from),
            world,
        ).world.positions,
    decreases upto - from,
{
    if upto > from {
        assert(order.take(upto).drop_last() =~= order.take(upto - 1));
        assert(order.take(upto).last() == order[upto - 1]);
        assert(order[upto - 1] != order[from - 1]);
        lemma_tick_keeps_positions(order, world, from, upto - 1);
    }
}

/// Whether a tick gets as far as `system`: every system before it in `order`
/// runs without an error.
pub open spec fn reaches(order: Seq<SystemKind>, world: WorldModel, system: SystemKind) -> bool {
    exists|at: int|
        0 <= at < order.len() && #[trigger] order[at] == system && ticked(
            order.take(at),
            world,
        ).result is Ok
}

/// The motion pass never works on stale velocities. Called after the input
/// pass, it moves an entity by the velocity that the input pass has just
/// given it, whatever velocity the entity had before: a controlled entity
/// goes by the movement speed along the direction of a `Move` command, to
/// exactly the place that lies there wherever an `i32` can hold it.
pub proof fn law_motion_after_input(world: WorldModel, id: int)
    requires
        world.moving(id),
    ensures
        world.input_step().motion_step().positions[id] == Position(
            moved(world.positions[id].0, world.input_step().velocities[id]),
        ),
        forall|direction: Direction|
            world.controlled.contains(id) && world.command == Some(
                Some(MovementCommand::Move(direction)),
            ) ==> world.input_step().motion_step().positions[id] == Position(
                moved(
                    world.positions[id].0,
                    Velocity { speed: PLAYER_MOVEMENT_SPEED, direction },
                ),
            ),
        forall|direction: Direction|
            world.controlled.contains(id) && world.command == Some(
                Some(MovementCommand::Move(direction)),
            ) && displacement_fits(
                world.positions[id].0,
                Velocity { speed: PLAYER_MOVEMENT_SPEED, direction },
            ) ==> world.input_step().motion_step().positions[id] == Position(
                displaced(
                    world.positions[id].0,
                    Velocity { speed: PLAYER_MOVEMENT_SPEED, direction },
                ),
            ),
{
}

/// The same within a tick: where the motion pass is declared to depend on
/// the input pass, every tick that gets as far as the motion pass moves an
/// entity by the velocity that the input pass of the same tick gave it,
/// whatever the motion pass or a later system reports.
pub proof fn law_motion_sees_the_input_of_its_tick(
    decls: Seq<SystemDecl>,
    order: Seq<SystemKind>,
    world: WorldModel,
    id: int,
)
    requires
        honours(decls, order),
        depends(decls, SystemKind::Physics, SystemKind::Keyboard),
        reaches(order, world, SystemKind::Physics),
        world.moving(id),
    ensures
        ticked(order, world).world.positions[id] == Position(
            moved(world.positions[id].0, world.input_step().velocities[id]),
        ),
        displacement_fits(world.positions[id].0, world.input_step().velocities[id]) ==> ticked(
            order,
            world,
        ).world.positions[id] == Position(
            displaced(world.positions[id].0, world.input_step().velocities[id]),
        ),
{
    let (i, k) = choose|i: int, k: int|
        0 <= i < decls.len() && 0 <= k < decls[i].depends_on@.len() && decls[i].system
            == SystemKind::Physics && #[trigger] decls[i].depends_on@[k] == SystemKind::Keyboard;
    assert forall|p: int|
        0 <= p < order.len() && #[trigger] order[p] == SystemKind::Physics implies before(
        order,
        SystemKind::Keyboard,
        p,
    ) by {
        assert(order[p] == decls[i].system && decls[i].depends_on@[k] == SystemKind::Keyboard);
    }
    let at = choose|at: int|
        0 <= at < order.len() && #[trigger] order[at] == SystemKind::Physics && ticked(
            order.take(at),
            world,
        ).result is Ok;
    assert(order.take(at + 1)[at] == SystemKind::Physics);
    assert(order.take(at + 1).contains(SystemKind::Physics));
    lemma_tick_so_far(order, world, at + 1);
    lemma_tick_keeps_positions(order, world, at + 1, order.len() as int);
    assert(order.take(order.len() as int) =~= order);
}

/// No pass gives an entity a component or takes one away, so a world that
/// is well formed and coherent stays so through every pass.
pub proof fn law_passes_keep_the_shape(system: SystemKind, world: WorldModel)
    ensures
        world.same_shape(system.step(world)),
        world.well_formed() ==> system.step(world).well_formed(),
        world.coherent() ==> system.step(world).coherent(),
        system.step(world).command == world.command,
{
    let after = system.step(world);
    assert(after.positions.dom() =~= world.positions.dom());
    assert(after.velocities.dom() =~= world.velocities.dom());
    assert(after.sprites.dom() =~= world.sprites.dom());
    assert(after.animations.dom() =~= world.animations.dom());
    if world.well_formed() {
        assert forall|id: int| #[trigger] after.positions.contains_key(id) implies after.is_live(id)
            && after.registered.contains(crate::model::ComponentKind::Position) by {
            assert(world.positions.contains_key(id));
        }
        assert forall|id: int| #[trigger]
            after.velocities.contains_key(id) implies after.is_live(id)
            && after.registered.contains(crate::model::ComponentKind::Velocity) by {
            assert(world.velocities.contains_key(id));
        }
        assert forall|id: int| #[trigger] after.sprites.contains_key(id) implies after.is_live(id)
            && after.registered.contains(crate::model::ComponentKind::Sprite) by {
            assert(world.sprites.contains_key(id));
        }
        assert forall|id: int| #[trigger]
            after.animations.contains_key(id) implies after.is_live(id)
            && after.registered.contains(crate::model::ComponentKind::MovementAnimation) by {
            assert(world.animations.contains_key(id));
        }
    }
    if world.coherent() {
        assert forall|id: int| #[trigger] after.coherent_at(id) by {
            assert(world.coherent_at(id));
        }
    }
}

/// The standard declarations leave two orders to choose from: the input
/// pass first, then the motion pass and the animation pass either way round.
pub proof fn lemma_standard_orders(decls: Seq<SystemDecl>, order: Seq<SystemKind>)
    requires
        is_standard(decls),
        honours(decls, order),
    ensures
        order == seq![SystemKind::Keyboard, SystemKind::Physics, SystemKind::Animator] || order
            == seq![SystemKind::Keyboard, SystemKind::Animator, SystemKind::Physics],
{
    let all = seq![SystemKind::Keyboard, SystemKind::Physics, SystemKind::Animator];
    assert(names(decls) =~= all);
    assert(all.no_duplicates());
    order.unique_seq_to_set();
    all.unique_seq_to_set();
    assert(order.to_set() =~= all.to_set());
    assert(order.len() == 3);
    assert(decls[1].depends_on@[0] == SystemKind::Keyboard);
    assert(decls[2].depends_on@[0] == SystemKind::Keyboard);
    if order[0] == SystemKind::Physics {
        assert(order[0] == decls[1].system);
        assert(before(order, decls[1].depends_on@[0], 0));
    }
    if order[0] == SystemKind::Animator {
        assert(order[0] == decls[2].system);
        assert(before(order, decls[2].depends_on@[0], 0));
    }
    assert(order[0] == SystemKind::Keyboard);
    assert(order[1] != order[0] && order[2] != order[0] && order[1] != order[2]);
    if order[1] == SystemKind::Physics {
        assert(order =~= seq![SystemKind::Keyboard, SystemKind::Physics, SystemKind::Animator]);
    } else {
        assert(order =~= seq![SystemKind::Keyboard, SystemKind::Animator, SystemKind::Physics]);
    }
}

/// What a tick of three systems makes of a world.
proof fn lemma_ticked_three(first: SystemKind, second: SystemKind, third: SystemKind, world: WorldModel)
    ensures
        ticked(seq![first, second, third], world).result is Ok <==> first.outcome(world) is Ok
            && second.outcome(first.step(world)) is Ok && third.outcome(
            second.step(first.step(world)),
        ) is Ok,
        ticked(seq![first, second, third], world).result is Ok ==> ticked(
            seq![first, second, third],
            world,
        ).world == third.step(second.step(first.step(world))),
{
    let three = seq![first, second, third];
    let two = seq![first, second];
    let one = seq![first];
    assert(three.drop_last() =~= two);
    assert(two.drop_last() =~= one);
    assert(one.drop_last() =~= Seq::<SystemKind>::empty());
    assert(three.last() == third && two.last() == second && one.last() == first);
    assert(ticked(Seq::<SystemKind>::empty(), world).result is Ok);
    assert(ticked(Seq::<SystemKind>::empty(), world).world == world);
    reveal_with_fuel(ticked, 4);
}

/// Systems that do not depend on each other may run in either order: every
/// order that honours the standard declarations ends a tick well on the same
/// worlds, and then with the same world.
pub proof fn law_standard_orders_agree(
    decls: Seq<SystemDecl>,
    first: Seq<SystemKind>,
    second: Seq<SystemKind>,
    world: WorldModel,
)
    requires
        is_standard(decls),
        honours(decls, first),
        honours(decls, second),
    ensures
        ticked(first, world).result is Ok <==> ticked(second, world).result is Ok,
        ticked(first, world).result is Ok ==> ticked(first, world).world == ticked(
            second,
            world,
        ).world,
{
    lemma_standard_orders(decls, first);
    lemma_standard_orders(decls, second);
    lemma_ticked_three(SystemKind::Keyboard, SystemKind::Physics, SystemKind::Animator, world);
    lemma_ticked_three(SystemKind::Keyboard, SystemKind::Animator, SystemKind::Physics, world);
    law_motion_and_animation_commute(world.input_step());
}

} // verus!
