//! The input pass: the movement command of the tick becomes the velocity of
//! every controlled entity.

use vstd::prelude::*;
use crate::components::{MovementCommand, Velocity};
use crate::error::EcsError;
use crate::join::{done, lemma_done_ends, lemma_done_step, lists};
use crate::model::{resolve_command, ComponentKind, WorldModel, PLAYER_MOVEMENT_SPEED};
use crate::store::{ws_command_now, ws_put_velocity, ws_steered, ws_velocity};
use crate::world::GameWorld;

verus! {

impl Velocity {
    /// This velocity after `command`.
    pub fn resolved(self, command: Option<MovementCommand>) -> (velocity: Velocity)
        ensures
            velocity == resolve_command(self, command),
    {
        match command {
            None => self,
            Some(MovementCommand::Stop) => Velocity { speed: 0, direction: self.direction },
            Some(MovementCommand::Move(direction)) => Velocity {
                speed: PLAYER_MOVEMENT_SPEED,
                direction,
            },
        }
    }
}

/// The input pass.
pub struct Keyboard;

impl Keyboard {
    /// What the pass reports of a world: `MissingResource` where the command
    /// was never written, `UnregisteredKind` where a store that it uses is
    /// missing.
    pub open spec fn outcome(world: WorldModel) -> Result<(), EcsError> {
        if world.command is None {
            Err(EcsError::MissingResource)
        } else if !world.registered.contains(ComponentKind::KeyboardControlled)
            || !world.registered.contains(ComponentKind::Velocity) {
            Err(EcsError::UnregisteredKind)
        } else {
            Ok(())
        }
    }

    /// Runs the pass: every entity that is controlled and has a velocity gets
    /// the velocity that the command of this tick leaves behind. Where the
    /// pass reports an error, there was nothing for it to change.
    pub fn run(&mut self, world: &mut GameWorld) -> (result: Result<(), EcsError>)
        requires
            old(world).wf(),
        ensures
            final(world).wf(),
            result == Keyboard::outcome(old(world)@),
            final(world)@ == old(world)@.input_step(),
    {
        let ghost start = world@;
        let command = match ws_command_now(&world.inner) {
            Some(command) => command,
            None => {
                return Err(EcsError::MissingResource);
            },
        };
        if !world.has_controlled || !world.has_velocities {
            assert(start.input_step().velocities =~= start.velocities);
            return Err(EcsError::UnregisteredKind);
        }
        if command.is_none() {
            assert(start.input_step().velocities =~= start.velocities);
            return Ok(());
        }
        let ids = ws_steered(&world.inner);
        let ghost wanted = |id: int| start.controlled.contains(id) && start.velocities.contains_key(id);
        proof {
            lemma_done_ends(ids@, wanted);
        }
        assert(world@.velocities =~= Map::new(
            |id: int| start.velocities.contains_key(id),
            |id: int|
                if done(ids@, 0, id) {
                    resolve_command(start.velocities[id], command)
                } else {
                    start.velocities[id]
                },
        ));
        let mut at: usize = 0;
        while at < ids.len()
            invariant
                world.wf(),
                start.registered.contains(ComponentKind::Velocity),
                0 <= at <= ids.len(),
                start.command == Some(command),
                lists(ids@, wanted),
                wanted == |id: int| start.controlled.contains(id) && start.velocities.contains_key(id),
                world@ == (WorldModel {
                    velocities: Map::new(
                        |id: int| start.velocities.contains_key(id),
                        |id: int|
                            if done(ids@, at as int, id) {
                                resolve_command(start.velocities[id], command)
                            } else {
                                start.velocities[id]
                            },
                    ),
                    ..start
                }),
            decreases ids.len() - at,
        {
            let id = ids[at];
            proof {
                lemma_done_step(ids@, wanted, at as int);
                assert(wanted(id as int));
                assert(world@.velocities.contains_key(id as int));
                assert(world@.is_live(id as int));
            }
            let velocity = ws_velocity(&world.inner, id).unwrap();
            ws_put_velocity(&mut world.inner, id, velocity.resolved(command));
            at += 1;
            assert(world@.velocities =~= Map::new(
                |id: int| start.velocities.contains_key(id),
                |id: int|
                    if done(ids@, at as int, id) {
                        resolve_command(start.velocities[id], command)
                    } else {
                        start.velocities[id]
                    },
            ));
        }
        assert(world@.velocities =~= start.input_step().velocities);
        Ok(())
    }
}

} // verus!
