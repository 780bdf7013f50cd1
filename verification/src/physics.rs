//! The motion pass: every position moves by its velocity, along one axis.

use vstd::prelude::*;
use crate::components::{Direction, Point, Position, Velocity};
use crate::error::EcsError;
use crate::join::{done, lemma_done_ends, lemma_done_step, lists};
use crate::model::{displaced, displacement_fits, moved, ComponentKind, WorldModel};
use crate::store::{ws_moving, ws_position, ws_put_position, ws_velocity};
use crate::world::GameWorld;

verus! {

impl Point {
    /// The point reached from this one after one tick at `velocity`: `speed`
    /// units to the left, to the right, up or down. `None` where a
    /// coordinate would leave `i32`.
    pub fn offset(self, velocity: Velocity) -> (reached: Option<Point>)
        ensures
            reached == (if displacement_fits(self, velocity) {
                Some(displaced(self, velocity))
            } else {
                None
            }),
    {
        let (x, y): (i64, i64) = match velocity.direction {
            Direction::Left => (self.x as i64 - velocity.speed as i64, self.y as i64),
            Direction::Right => (self.x as i64 + velocity.speed as i64, self.y as i64),
            Direction::Up => (self.x as i64, self.y as i64 - velocity.speed as i64),
            Direction::Down => (self.x as i64, self.y as i64 + velocity.speed as i64),
        };
        if x < i32::MIN as i64 || x > i32::MAX as i64 || y < i32::MIN as i64 || y > i32::MAX as i64 {
            None
        } else {
            Some(Point { x: x as i32, y: y as i32 })
        }
    }
}

/// The motion pass.
pub struct Physics;

impl Physics {
    /// What the pass reports of a world: `UnregisteredKind` where a store
    /// that it uses is missing, `PositionOverflow` where some entity would
    /// leave `i32`.
    pub open spec fn outcome(world: WorldModel) -> Result<(), EcsError> {
        if !world.registered.contains(ComponentKind::Position) || !world.registered.contains(
            ComponentKind::Velocity,
        ) {
            Err(EcsError::UnregisteredKind)
        } else if !world.motion_fits() {
            Err(EcsError::PositionOverflow)
        } else {
            Ok(())
        }
    }

    /// Runs the pass: every entity that has a position and a velocity moves
    /// by `speed` along the axis of its direction. An entity that would
    /// leave `i32` stays where it is; the others move all the same, and the
    /// pass reports `PositionOverflow`.
    pub fn run(&mut self, world: &mut GameWorld) -> (result: Result<(), EcsError>)
        requires
            old(world).wf(),
        ensures
            final(world).wf(),
            result == Physics::outcome(old(world)@),
            final(world)@ == old(world)@.motion_step(),
    {
        let ghost start = world@;
        if !world.has_positions || !world.has_velocities {
            assert(start.motion_step().positions =~= start.positions);
            return Err(EcsError::UnregisteredKind);
        }
        let ids = ws_moving(&world.inner);
        let ghost wanted = |id: int| start.positions.contains_key(id) && start.velocities.contains_key(id);
        proof {
            lemma_done_ends(ids@, wanted);
        }
        assert(world@.positions =~= Map::new(
            |id: int| start.positions.contains_key(id),
            |id: int|
                if done(ids@, 0, id) {
                    Position(moved(start.positions[id].0, start.velocities[id]))
                } else {
                    start.positions[id]
                },
        ));
        let mut stuck = false;
        let mut at: usize = 0;
        while at < ids.len()
            invariant
                world.wf(),
                0 <= at <= ids.len(),
                start.registered.contains(ComponentKind::Position),
                start.registered.contains(ComponentKind::Velocity),
                lists(ids@, wanted),
                wanted == |id: int| start.positions.contains_key(id) && start.velocities.contains_key(id),
                stuck == exists|id: int| #[trigger]
                    done(ids@, at as int, id) && !displacement_fits(
                        start.positions[id].0,
                        start.velocities[id],
                    ),
                world@ == (WorldModel {
                    positions: Map::new(
                        |id: int| start.positions.contains_key(id),
                        |id: int|
                            if done(ids@, at as int, id) {
                                Position(moved(start.positions[id].0, start.velocities[id]))
                            } else {
                                start.positions[id]
                            },
                    ),
                    ..start
                }),
            decreases ids.len() - at,
        {
            let id = ids[at];
            proof {
                lemma_done_step(ids@, wanted, at as int);
                assert(wanted(id as int));
                assert(start.moving(id as int));
                assert(world@.positions.contains_key(id as int));
                assert(world@.is_live(id as int));
            }
            let position = ws_position(&world.inner, id).unwrap();
            let velocity = ws_velocity(&world.inner, id).unwrap();
            let ghost before = stuck;
            match position.0.offset(velocity) {
                Some(reached) => ws_put_position(&mut world.inner, id, Position(reached)),
                None => {
                    stuck = true;
                },
            }
            at += 1;
            proof {
                assert(done(ids@, at as int, id as int));
                if before {
                    let held = choose|held: int| #[trigger]
                        done(ids@, at - 1, held) && !displacement_fits(
                            start.positions[held].0,
                            start.velocities[held],
                        );
                    assert(done(ids@, at as int, held));
                }
                assert(world@.positions =~= Map::new(
                    |id: int| start.positions.contains_key(id),
                    |id: int|
                        if done(ids@, at as int, id) {
                            Position(moved(start.positions[id].0, start.velocities[id]))
                        } else {
                            start.positions[id]
                        },
                ));
            }
        }
        proof {
            assert(world@.positions =~= start.motion_step().positions);
            if stuck {
                let held = choose|held: int| #[trigger]
                    done(ids@, ids@.len() as int, held) && !displacement_fits(
                        start.positions[held].0,
                        start.velocities[held],
                    );
                assert(start.moving(held));
            } else {
                assert forall|id: int| #[trigger] start.moving(id) implies displacement_fits(
                    start.positions[id].0,
                    start.velocities[id],
                ) by {
                    assert(wanted(id));
                    assert(done(ids@, ids@.len() as int, id));
                }
            }
        }
        if stuck {
            Err(EcsError::PositionOverflow)
        } else {
            Ok(())
        }
    }
}

} // verus!
