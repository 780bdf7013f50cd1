//! The animation pass: a moving entity shows the next frame of the sequence
//! of its direction; one that stands still keeps what it shows.

use vstd::prelude::*;
use vstd::arithmetic::div_mod::{lemma_add_mod_noop, lemma_small_mod};
use crate::components::{Direction, MovementAnimation, Sprite, Velocity};
use crate::error::EcsError;
use crate::join::{done, lemma_done_ends, lemma_done_step, lists};
use crate::model::{advanced, advances, frameless, next_frame, shown, ComponentKind, WorldModel};
use crate::store::{
    ws_animated, ws_put_animation, ws_put_sprite, ws_take_animation, ws_velocity,
};
use crate::world::GameWorld;

verus! {

impl MovementAnimation {
    /// The frame sequence shown while facing `direction`.
    pub fn frames(&self, direction: Direction) -> (frames: &Vec<Sprite>)
        ensures
            frames@ == self@.frames(direction),
    {
        match direction {
            Direction::Left => &self.left_frames,
            Direction::Right => &self.right_frames,
            Direction::Down => &self.down_frames,
            Direction::Up => &self.up_frames,
        }
    }

    /// One pass at `velocity`. An entity that moves in a direction with
    /// frames steps to the frame after the current one, back to the first
    /// one after the last, and the frame to show is handed out. Otherwise
    /// nothing changes and nothing is handed out.
    pub fn advance(&mut self, velocity: Velocity) -> (frame: Option<Sprite>)
        ensures
            final(self)@ == advanced(old(self)@, velocity),
            frame == (if advances(old(self)@, velocity) {
                Some(old(self)@.frames(velocity.direction)[final(self)@.current_frame as int])
            } else {
                None
            }),
    {
        if velocity.speed == 0 {
            return None;
        }
        let len = self.frames(velocity.direction).len();
        if len == 0 {
            return None;
        }
        let next = (self.current_frame % len + 1) % len;
        proof {
            lemma_add_mod_noop(self.current_frame as int, 1, len as int);
            if len > 1 {
                lemma_small_mod(1, len as nat);
            }
            assert(next == next_frame(self.current_frame as nat, len as nat));
        }
        self.current_frame = next;
        let frame = self.frames(velocity.direction)[next];
        Some(frame)
    }
}

/// The animation pass.
pub struct Animator;

impl Animator {
    /// What the pass reports of a world: `UnregisteredKind` where a store
    /// that it uses is missing, `IndexInvariantViolation` where some entity
    /// moves in a direction for which it has no frame.
    pub open spec fn outcome(world: WorldModel) -> Result<(), EcsError> {
        if !world.registered.contains(ComponentKind::MovementAnimation)
            || !world.registered.contains(ComponentKind::Sprite) || !world.registered.contains(
            ComponentKind::Velocity,
        ) {
            Err(EcsError::UnregisteredKind)
        } else if world.has_frameless() {
            Err(EcsError::IndexInvariantViolation)
        } else {
            Ok(())
        }
    }

    /// Runs the pass: of the entities that have an animation, a sprite and a
    /// velocity, those with a speed other than zero step to their next frame
    /// and show it; the others are left alone. An entity that moves in a
    /// direction without frames keeps what it shows; the others are animated
    /// all the same, and the pass reports `IndexInvariantViolation`.
    pub fn run(&mut self, world: &mut GameWorld) -> (result: Result<(), EcsError>)
        requires
            old(world).wf(),
        ensures
            final(world).wf(),
            result == Animator::outcome(old(world)@),
            final(world)@ == old(world)@.animation_step(),
    {
        let ghost start = world@;
        if !world.has_animations || !world.has_sprites || !world.has_velocities {
            assert(start.animation_step().animations =~= start.animations);
            assert(start.animation_step().sprites =~= start.sprites);
            return Err(EcsError::UnregisteredKind);
        }
        let ids = ws_animated(&world.inner);
        let ghost wanted = |id: int|
            start.animations.contains_key(id) && start.sprites.contains_key(id)
                && start.velocities.contains_key(id);
        proof {
            lemma_done_ends(ids@, wanted);
        }
        assert(world@.animations =~= Map::new(
            |id: int| start.animations.contains_key(id),
            |id: int|
                if done(ids@, 0, id) {
                    advanced(start.animations[id], start.velocities[id])
                } else {
                    start.animations[id]
                },
        ));
        assert(world@.sprites =~= Map::new(
            |id: int| start.sprites.contains_key(id),
            |id: int|
                if done(ids@, 0, id) {
                    shown(start.animations[id], start.sprites[id], start.velocities[id])
                } else {
                    start.sprites[id]
                },
        ));
        let mut stuck = false;
        let mut at: usize = 0;
        while at < ids.len()
            invariant
                world.wf(),
                0 <= at <= ids.len(),
                start.registered.contains(ComponentKind::MovementAnimation),
                start.registered.contains(ComponentKind::Sprite),
                start.registered.contains(ComponentKind::Velocity),
                lists(ids@, wanted),
                wanted == |id: int|
                    start.animations.contains_key(id) && start.sprites.contains_key(id)
                        && start.velocities.contains_key(id),
                stuck == exists|id: int| #[trigger]
                    done(ids@, at as int, id) && frameless(
                        start.animations[id],
                        start.velocities[id],
                    ),
                world@ == (WorldModel {
                    animations: Map::new(
                        |id: int| start.animations.contains_key(id),
                        |id: int|
                            if done(ids@, at as int, id) {
                                advanced(start.animations[id], start.velocities[id])
                            } else {
                                start.animations[id]
                            },
                    ),
                    sprites: Map::new(
                        |id: int| start.sprites.contains_key(id),
                        |id: int|
                            if done(ids@, at as int, id) {
                                shown(start.animations[id], start.sprites[id], start.velocities[id])
                            } else {
                                start.sprites[id]
                            },
                    ),
                    ..start
                }),
            decreases ids.len() - at,
        {
            let id = ids[at];
            proof {
                lemma_done_step(ids@, wanted, at as int);
                assert(wanted(id as int));
                assert(start.animated(id as int));
                assert(world@.animations.contains_key(id as int));
                assert(world@.is_live(id as int));
            }
            let ghost before = stuck;
            let velocity = ws_velocity(&world.inner, id).unwrap();
            if velocity.speed != 0 {
                let mut animation = ws_take_animation(&mut world.inner, id).unwrap();
                match animation.advance(velocity) {
                    Some(frame) => ws_put_sprite(&mut world.inner, id, frame),
                    None => {
                        stuck = true;
                    },
                }
                ws_put_animation(&mut world.inner, id, animation);
            }
            at += 1;
            proof {
                assert(done(ids@, at as int, id as int));
                if before {
                    let held = choose|held: int| #[trigger]
                        done(ids@, at - 1, held) && frameless(
                            start.animations[held],
                            start.velocities[held],
                        );
                    assert(done(ids@, at as int, held));
                }
                assert(world@.animations =~= Map::new(
                    |id: int| start.animations.contains_key(id),
                    |id: int|
                        if done(ids@, at as int, id) {
                            advanced(start.animations[id], start.velocities[id])
                        } else {
                            start.animations[id]
                        },
                ));
                assert(world@.sprites =~= Map::new(
                    |id: int| start.sprites.contains_key(id),
                    |id: int|
                        if done(ids@, at as int, id) {
                            shown(start.animations[id], start.sprites[id], start.velocities[id])
                        } else {
                            start.sprites[id]
                        },
                ));
            }
        }
        proof {
            assert(world@.animations =~= start.animation_step().animations);
            assert(world@.sprites =~= start.animation_step().sprites);
            if stuck {
                let held = choose|held: int| #[trigger]
                    done(ids@, ids@.len() as int, held) && frameless(
                        start.animations[held],
                        start.velocities[held],
                    );
                assert(start.animated(held));
            } else if start.has_frameless() {
                let held = choose|held: int| #[trigger]
                    start.animated(held) && frameless(start.animations[held], start.velocities[held]);
                assert(wanted(held));
                assert(done(ids@, ids@.len() as int, held));
            }
        }
        if stuck {
            Err(EcsError::IndexInvariantViolation)
        } else {
            Ok(())
        }
    }
}

} // verus!
