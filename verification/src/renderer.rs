//! What the renderer is given each frame: for every entity that has a
//! position and a sprite, which region of which sheet goes where on screen.

use vstd::prelude::*;
use crate::components::{Point, Rect, Sprite};
use crate::error::EcsError;
use crate::join::{lemma_done_step, lists};
use crate::model::{ComponentKind, WorldModel};
use crate::store::{ws_position, ws_sprite, ws_visible};
use crate::world::{Entity, GameWorld};

verus! {

/// A rectangle on screen. The origin of the screen is its top-left corner;
/// the rectangle may lie partly or wholly outside.
#[derive(Debug, Clone, Copy, PartialEq, Eq, Structural)]
pub struct Placement {
    pub x: i64,
    pub y: i64,
    pub w: u32,
    pub h: u32,
}

/// One copy from a sprite sheet to the screen.
#[derive(Debug, Clone, Copy, PartialEq, Eq, Structural)]
pub struct DrawCommand {
    pub entity: Entity,
    pub spritesheet: usize,
    pub source: Rect,
    pub target: Placement,
}

/// Where a region of the size `w` by `h` goes on a screen of `width` by
/// `height` for an entity at `position`: the origin of the world is the
/// middle of the screen, and the region is centred on the entity.
pub open spec fn placed(position: Point, w: u32, h: u32, width: u32, height: u32) -> Placement {
    Placement {
        x: (position.x + width / 2 - w / 2) as i64,
        y: (position.y + height / 2 - h / 2) as i64,
        w,
        h,
    }
}

/// The copy that shows the entity `id` of `world`.
pub open spec fn drawn(world: WorldModel, id: int, width: u32, height: u32) -> DrawCommand {
    let sprite = world.sprites[id];
    DrawCommand {
        entity: Entity { id: id as u32 },
        spritesheet: sprite.spritesheet,
        source: sprite.region,
        target: placed(world.positions[id].0, sprite.region.w, sprite.region.h, width, height),
    }
}

/// Where a region of the size `w` by `h` goes on a screen of `width` by
/// `height` for an entity at `position`.
pub fn place(position: Point, w: u32, h: u32, width: u32, height: u32) -> (target: Placement)
    ensures
        target == placed(position, w, h, width, height),
{
    Placement {
        x: position.x as i64 + (width / 2) as i64 - (w / 2) as i64,
        y: position.y as i64 + (height / 2) as i64 - (h / 2) as i64,
        w,
        h,
    }
}

/// The copy that shows `sprite` for `entity` at `position`.
pub fn draw(entity: Entity, position: Point, sprite: Sprite, width: u32, height: u32) -> (command:
    DrawCommand)
    ensures
        command == (DrawCommand {
            entity,
            spritesheet: sprite.spritesheet,
            source: sprite.region,
            target: placed(position, sprite.region.w, sprite.region.h, width, height),
        }),
{
    DrawCommand {
        entity,
        spritesheet: sprite.spritesheet,
        source: sprite.region,
        target: place(position, sprite.region.w, sprite.region.h, width, height),
    }
}

/// The ids of the entities that `commands` show, in their order.
pub open spec fn shown_ids(commands: Seq<DrawCommand>) -> Seq<u32> {
    commands.map_values(|command: DrawCommand| command.entity.id)
}

/// The copies that draw a world on a screen of `width` by `height`: one for
/// each entity that has a position and a sprite, lowest id first. The world
/// is only read. `UnregisteredKind` where it has no store for positions or
/// for sprites.
pub fn render(world: &GameWorld, width: u32, height: u32) -> (result: Result<
    Vec<DrawCommand>,
    EcsError,
>)
    requires
        world.wf(),
    ensures
        result is Ok == (world@.registered.contains(ComponentKind::Position)
            && world@.registered.contains(ComponentKind::Sprite)),
        result is Err ==> result == Err::<Vec<DrawCommand>, EcsError>(EcsError::UnregisteredKind),
        result matches Ok(commands) ==> {
            &&& lists(shown_ids(commands@), |id: int| world@.visible(id))
            &&& forall|i: int|
                0 <= i < commands@.len() ==> #[trigger] commands@[i] == drawn(
                    world@,
                    commands@[i].entity.id as int,
                    width,
                    height,
                )
        },
{
    if !world.has_positions || !world.has_sprites {
        return Err(EcsError::UnregisteredKind);
    }
    let ids = ws_visible(&world.inner);
    let ghost wanted = |id: int|
        world@.positions.contains_key(id) && world@.sprites.contains_key(id);
    let mut commands: Vec<DrawCommand> = Vec::new();
    let mut at: usize = 0;
    while at < ids.len()
        invariant
            world.wf(),
            world@.registered.contains(ComponentKind::Position),
            world@.registered.contains(ComponentKind::Sprite),
            0 <= at <= ids.len(),
            lists(ids@, wanted),
            wanted == |id: int| world@.positions.contains_key(id) && world@.sprites.contains_key(id),
            commands@.len() == at,
            forall|i: int| 0 <= i < at ==> #[trigger] commands@[i].entity.id == ids@[i],
            forall|i: int|
                0 <= i < at ==> #[trigger] commands@[i] == drawn(
                    world@,
                    ids@[i] as int,
                    width,
                    height,
                ),
        decreases ids.len() - at,
    {
        let id = ids[at];
        proof {
            lemma_done_step(ids@, wanted, at as int);
            assert(wanted(id as int));
        }
        let position = ws_position(&world.inner, id).unwrap();
        let sprite = ws_sprite(&world.inner, id).unwrap();
        commands.push(draw(Entity { id }, position.0, sprite, width, height));
        at += 1;
    }
    proof {
        assert(shown_ids(commands@) =~= ids@);
        assert(lists(ids@, |id: int| world@.visible(id))) by {
            assert forall|id: int| #[trigger] world@.visible(id) implies 0 <= id <= u32::MAX
                && ids@.contains(id as u32) by {
                assert(wanted(id));
            }
            assert forall|i: int| 0 <= i < ids@.len() implies world@.visible(
                #[trigger] ids@[i] as int,
            ) by {
                assert(wanted(ids@[i] as int));
            }
        }
    }
    Ok(commands)
}

} // verus!
