//! Render passes: one tick's worth of draw operations for a whole scene.
//!
//! A pass composes every entity into one ordered operation list. The driver
//! writes the list to the terminal and flushes exactly once per tick, so a
//! tick becomes visible as one atomic update and no half-drawn frame can be
//! observed.

use vstd::prelude::*;

use crate::camera::{project, project_spec};
use crate::compose::{
    check_render, cursor_after_draw, grid_fits, print_sprite, sprite_fits, sprite_ops,
    sprite_render_err, DrawOp,
};
use crate::entity::Entity;
use crate::errors::RenderError;
use crate::position::Position;

verus! {

/// The entity as it stands after its sprite was drawn once: the cursor one
/// selection further when an animation is playing, everything else as it was.
pub open spec fn entity_after_draw(e: Entity) -> Entity {
    Entity {
        cursor: cursor_after_draw(e.sprite, e.cursor as nat, e.animation_name) as usize,
        ..e
    }
}

/// The operations one entity contributes when drawn at its own world
/// position, with no camera involved.
pub open spec fn entity_own_ops(e: Entity) -> Seq<DrawOp> {
    sprite_ops(
        e.sprite,
        e.cursor as nat,
        e.animation_name,
        e.position.x as int,
        e.position.y as int,
    )
}

/// The operations a list of entities contributes, in list order.
pub open spec fn sprites_ops(s: Seq<Entity>) -> Seq<DrawOp>
    decreases s.len(),
{
    if s.len() == 0 {
        Seq::empty()
    } else {
        sprites_ops(s.drop_last()) + entity_own_ops(s.last())
    }
}

/// The first refusal among a list of entities, in list order.
pub open spec fn sprites_err(s: Seq<Entity>) -> Option<RenderError>
    decreases s.len(),
{
    if s.len() == 0 {
        None
    } else if sprite_render_err(s[0].sprite, s[0].animation_name) is Some {
        sprite_render_err(s[0].sprite, s[0].animation_name)
    } else {
        sprites_err(s.drop_first())
    }
}

/// A prefix of drawable entities does not change which refusal is found.
proof fn lemma_sprites_err_skip(s: Seq<Entity>, i: int)
    requires
        0 <= i <= s.len(),
        forall|j: int| 0 <= j < i
            ==> sprite_render_err((#[trigger] s[j]).sprite, s[j].animation_name) is None,
    ensures
        sprites_err(s) == sprites_err(s.skip(i)),
    decreases i,
{
    if i > 0 {
        lemma_sprites_err_skip(s.drop_first(), i - 1);
        assert(s.skip(i) =~= s.drop_first().skip(i - 1));
    } else {
        assert(s.skip(0) =~= s);
    }
}

/// A sprite that fits at `(x2, y2)` also fits anywhere above and to the left
/// of it: coordinates only shrink.
proof fn lemma_sprite_fits_le(s: crate::sprite::Sprite, x1: int, y1: int, x2: int, y2: int)
    requires
        sprite_fits(s, x2, y2),
        0 <= x1 <= x2,
        0 <= y1 <= y2,
    ensures
        sprite_fits(s, x1, y1),
{
    assert(grid_fits(s.pixels.deep_view(), x1, y1));
    match s.animations {
        Some(anims) => {
            assert forall|i: int, k: int|
                0 <= i < anims@.len() && 0 <= k < anims@[i].frames@.len() implies grid_fits(
                (#[trigger] anims@[i].frames@[k]).pixels.deep_view(),
                x1,
                y1,
            ) by {
                assert(grid_fits(anims@[i].frames@[k].pixels.deep_view(), x2, y2));
            }
        },
        None => {},
    }
}

/// Composes one tick with no camera: a clear of the screen, then every
/// entity's frame at the entity's own position, in list order. On success
/// each entity's animation cursor has advanced by one selection; a refusal
/// (the first one, in list order) changes nothing. The operations are only
/// composed here: the driver writes and flushes them as one batch.
pub fn print_sprites(entities: &mut Vec<Entity>) -> (r: Result<Vec<DrawOp>, RenderError>)
    requires
        forall|i: int| 0 <= i < old(entities)@.len()
            ==> (#[trigger] old(entities)@[i]).sprite.wf(),
        forall|i: int| 0 <= i < old(entities)@.len() ==> sprite_fits(
            (#[trigger] old(entities)@[i]).sprite,
            old(entities)@[i].position.x as int,
            old(entities)@[i].position.y as int,
        ),
    ensures
        match sprites_err(old(entities)@) {
            Some(e) => {
                &&& r == Err::<Vec<DrawOp>, RenderError>(e)
                &&& final(entities)@ == old(entities)@
            },
            None => {
                &&& r matches Ok(ops) && ops@ == seq![DrawOp::ClearAll] + sprites_ops(
                    old(entities)@,
                )
                &&& final(entities)@.len() == old(entities)@.len()
                &&& forall|i: int| 0 <= i < old(entities)@.len()
                    ==> final(entities)@[i] == entity_after_draw(#[trigger] old(entities)@[i])
            },
        },
{
    // Refuse the whole pass before anything is drawn or advanced, so a
    // refused pass leaves every entity untouched.
    let mut i: usize = 0;
    while i < entities.len()
        invariant
            0 <= i <= entities@.len(),
            entities@ == old(entities)@,
            forall|j: int| 0 <= j < i ==> sprite_render_err(
                (#[trigger] entities@[j]).sprite,
                entities@[j].animation_name,
            ) is None,
        decreases entities@.len() - i,
    {
        let e: &Entity = &entities[i];
        if let Some(err) = check_render(&e.sprite, &e.animation_name) {
            proof {
                lemma_sprites_err_skip(entities@, i as int);
                assert(entities@.skip(i as int)[0] == entities@[i as int]);
            }
            return Err(err);
        }
        i += 1;
    }
    proof {
        lemma_sprites_err_skip(entities@, entities@.len() as int);
        assert(entities@.skip(entities@.len() as int) =~= Seq::<Entity>::empty());
    }

    let mut ops: Vec<DrawOp> = Vec::new();
    ops.push(DrawOp::ClearAll);
    let mut done: Vec<Entity> = Vec::new();
    while entities.len() > 0
        invariant
            done@.len() + entities@.len() == old(entities)@.len(),
            entities@ == old(entities)@.skip(done@.len() as int),
            forall|j: int| 0 <= j < old(entities)@.len()
                ==> (#[trigger] old(entities)@[j]).sprite.wf(),
            forall|j: int| 0 <= j < old(entities)@.len() ==> sprite_fits(
                (#[trigger] old(entities)@[j]).sprite,
                old(entities)@[j].position.x as int,
                old(entities)@[j].position.y as int,
            ),
            forall|j: int| 0 <= j < old(entities)@.len() ==> sprite_render_err(
                (#[trigger] old(entities)@[j]).sprite,
                old(entities)@[j].animation_name,
            ) is None,
            forall|j: int| 0 <= j < done@.len()
                ==> done@[j] == entity_after_draw(#[trigger] old(entities)@[j]),
            ops@ == seq![DrawOp::ClearAll] + sprites_ops(
                old(entities)@.subrange(0, done@.len() as int),
            ),
        decreases entities@.len(),
    {
        let ghost k = done@.len() as int;
        let mut e = entities.remove(0);
        proof {
            assert(e == old(entities)@[k]);
            assert(entities@ =~= old(entities)@.skip(k + 1));
        }
        let ghost prev_ops = ops@;
        let x = e.position.x;
        let y = e.position.y;
        let res = {
            let sprite = &e.sprite;
            let animation_name = &e.animation_name;
            print_sprite(sprite, &mut e.cursor, x, y, animation_name, &mut ops)
        };
        match res {
            Ok(()) => {},
            Err(err) => {
                proof {
                    assert(false);
                }
                return Err(err);
            },
        }
        proof {
            assert(e == entity_after_draw(old(entities)@[k]));
            let pre = old(entities)@.subrange(0, k);
            let post = old(entities)@.subrange(0, k + 1);
            assert(post.drop_last() =~= pre);
            assert(post.last() == old(entities)@[k]);
            assert(ops@ =~= seq![DrawOp::ClearAll] + sprites_ops(post));
        }
        done.push(e);
    }
    *entities = done;
    proof {
        assert(old(entities)@.subrange(0, old(entities)@.len() as int) =~= old(entities)@);
    }
    Ok(ops)
}

/// The operations one non-focal entity contributes to a centered pass:
/// nothing at all when its projection falls off screen (culling), else its
/// sprite's frame at the projected position. What one entity contributes
/// depends only on that entity, the focal position and the terminal size,
/// never on any other entity.
pub open spec fn entity_pass_ops(e: Entity, focal_pos: Position, width: u16, height: u16) -> Seq<
    DrawOp,
> {
    match project_spec(focal_pos, e.position, width, height) {
        Some(p) => sprite_ops(
            e.sprite,
            e.cursor as nat,
            e.animation_name,
            p.x as int,
            p.y as int,
        ),
        None => Seq::empty(),
    }
}

/// The entity as a centered pass leaves it: drawn and advanced when on
/// screen, untouched when culled.
pub open spec fn entity_after_pass(e: Entity, focal_pos: Position, width: u16, height: u16) -> Entity {
    match project_spec(focal_pos, e.position, width, height) {
        Some(_) => entity_after_draw(e),
        None => e,
    }
}

/// Why one non-focal entity would make a centered pass fail, if it would: a
/// culled entity is never drawn, so it is never refused either.
pub open spec fn entity_pass_err(e: Entity, focal_pos: Position, width: u16, height: u16) -> Option<
    RenderError,
> {
    match project_spec(focal_pos, e.position, width, height) {
        Some(_) => sprite_render_err(e.sprite, e.animation_name),
        None => None,
    }
}

/// The operations all non-focal entities contribute, in list order.
pub open spec fn others_ops(s: Seq<Entity>, focal_pos: Position, width: u16, height: u16) -> Seq<
    DrawOp,
>
    decreases s.len(),
{
    if s.len() == 0 {
        Seq::empty()
    } else {
        others_ops(s.drop_last(), focal_pos, width, height) + entity_pass_ops(
            s.last(),
            focal_pos,
            width,
            height,
        )
    }
}

/// The first refusal among the non-focal entities, in list order.
pub open spec fn others_err(s: Seq<Entity>, focal_pos: Position, width: u16, height: u16) -> Option<
    RenderError,
>
    decreases s.len(),
{
    if s.len() == 0 {
        None
    } else if entity_pass_err(s[0], focal_pos, width, height) is Some {
        entity_pass_err(s[0], focal_pos, width, height)
    } else {
        others_err(s.drop_first(), focal_pos, width, height)
    }
}

/// The refusal a centered pass reports, if any: the focal entity is examined
/// first, then the others in list order.
pub open spec fn pass_err(focal: Entity, others: Seq<Entity>, width: u16, height: u16) -> Option<
    RenderError,
> {
    if sprite_render_err(focal.sprite, focal.animation_name) is Some {
        sprite_render_err(focal.sprite, focal.animation_name)
    } else {
        others_err(others, focal.position, width, height)
    }
}

/// Every operation of a centered pass, in order: clear the screen, the focal
/// entity's frame at the terminal's center, each surviving entity in list
/// order at its projected position, and last a move to the bottom-right
/// corner with a blank cell, parking the terminal cursor out of the way.
pub open spec fn pass_ops(focal: Entity, others: Seq<Entity>, width: u16, height: u16) -> Seq<
    DrawOp,
> {
    seq![DrawOp::ClearAll] + sprite_ops(
        focal.sprite,
        focal.cursor as nat,
        focal.animation_name,
        (width / 2) as int,
        (height / 2) as int,
    ) + others_ops(others, focal.position, width, height) + seq![
        DrawOp::MoveTo(width, height),
        DrawOp::Print(' '),
    ]
}

/// A prefix of acceptable entities does not change which refusal is found.
proof fn lemma_others_err_skip(s: Seq<Entity>, focal_pos: Position, width: u16, height: u16, i: int)
    requires
        0 <= i <= s.len(),
        forall|j: int| 0 <= j < i
            ==> entity_pass_err(#[trigger] s[j], focal_pos, width, height) is None,
    ensures
        others_err(s, focal_pos, width, height) == others_err(s.skip(i), focal_pos, width, height),
    decreases i,
{
    if i > 0 {
        lemma_others_err_skip(s.drop_first(), focal_pos, width, height, i - 1);
        assert(s.skip(i) =~= s.drop_first().skip(i - 1));
    } else {
        assert(s.skip(0) =~= s);
    }
}

/// Appends the closing operations of a centered pass: park the terminal
/// cursor on the bottom-right corner and blank that cell.
fn push_park(out: &mut Vec<DrawOp>, width: u16, height: u16)
    ensures
        final(out)@ == old(out)@ + seq![DrawOp::MoveTo(width, height), DrawOp::Print(' ')],
{
    let ghost prev = out@;
    out.push(DrawOp::MoveTo(width, height));
    out.push(DrawOp::Print(' '));
    proof {
        assert(out@ =~= prev + seq![DrawOp::MoveTo(width, height), DrawOp::Print(' ')]);
    }
}

/// Composes one tick with the camera centered on `entity_centered`: a clear,
/// the focal entity's frame at the terminal's center whatever its world
/// position, every other entity at `center + (entity - focal)` unless that
/// falls off screen (then it is culled, silently), and a final park of the
/// terminal cursor. On success the cursor of the focal entity and of every
/// drawn entity has advanced one selection; culled entities are untouched; a
/// refusal (focal first, then list order) changes nothing at all.
pub fn print_sprites_centered_on(
    entity_centered: &mut Entity,
    other_entities: &mut Vec<Entity>,
    width: u16,
    height: u16,
) -> (r: Result<Vec<DrawOp>, RenderError>)
    requires
        old(entity_centered).sprite.wf(),
        sprite_fits(old(entity_centered).sprite, width as int, height as int),
        forall|i: int| 0 <= i < old(other_entities)@.len()
            ==> (#[trigger] old(other_entities)@[i]).sprite.wf(),
        forall|i: int| 0 <= i < old(other_entities)@.len() ==> sprite_fits(
            (#[trigger] old(other_entities)@[i]).sprite,
            width as int,
            height as int,
        ),
    ensures
        match pass_err(*old(entity_centered), old(other_entities)@, width, height) {
            Some(e) => {
                &&& r == Err::<Vec<DrawOp>, RenderError>(e)
                &&& *final(entity_centered) == *old(entity_centered)
                &&& final(other_entities)@ == old(other_entities)@
            },
            None => {
                &&& r matches Ok(ops) && ops@ == pass_ops(
                    *old(entity_centered),
                    old(other_entities)@,
                    width,
                    height,
                )
                &&& *final(entity_centered) == entity_after_draw(*old(entity_centered))
                &&& final(other_entities)@.len() == old(other_entities)@.len()
                &&& forall|i: int| 0 <= i < old(other_entities)@.len()
                    ==> final(other_entities)@[i] == entity_after_pass(
                        #[trigger] old(other_entities)@[i],
                        old(entity_centered).position,
                        width,
                        height,
                    )
            },
        },
{
    // Refuse the whole pass before anything is drawn or advanced, so a
    // refused pass leaves every entity untouched. Only entities that would
    // actually be drawn can refuse: culling is not an error.
    if let Some(err) = check_render(&entity_centered.sprite, &entity_centered.animation_name) {
        return Err(err);
    }
    let mut i: usize = 0;
    while i < other_entities.len()
        invariant
            0 <= i <= other_entities@.len(),
            *entity_centered == *old(entity_centered),
            other_entities@ == old(other_entities)@,
            sprite_render_err(
                old(entity_centered).sprite,
                old(entity_centered).animation_name,
            ) is None,
            forall|j: int| 0 <= j < i ==> entity_pass_err(
                #[trigger] other_entities@[j],
                old(entity_centered).position,
                width,
                height,
            ) is None,
        decreases other_entities@.len() - i,
    {
        let e: &Entity = &other_entities[i];
        if project(entity_centered.position, e.position, width, height).is_some() {
            if let Some(err) = check_render(&e.sprite, &e.animation_name) {
                proof {
                    lemma_others_err_skip(
                        other_entities@,
                        old(entity_centered).position,
                        width,
                        height,
                        i as int,
                    );
                    assert(other_entities@.skip(i as int)[0] == other_entities@[i as int]);
                }
                return Err(err);
            }
        }
        i += 1;
    }
    proof {
        lemma_others_err_skip(
            other_entities@,
            old(entity_centered).position,
            width,
            height,
            other_entities@.len() as int,
        );
        assert(other_entities@.skip(other_entities@.len() as int) =~= Seq::<Entity>::empty());
    }

    let mut ops: Vec<DrawOp> = Vec::new();
    ops.push(DrawOp::ClearAll);
    let middle_x = width / 2;
    let middle_y = height / 2;
    proof {
        lemma_sprite_fits_le(
            entity_centered.sprite,
            middle_x as int,
            middle_y as int,
            width as int,
            height as int,
        );
    }
    let ghost focal_ops = sprite_ops(
        old(entity_centered).sprite,
        old(entity_centered).cursor as nat,
        old(entity_centered).animation_name,
        middle_x as int,
        middle_y as int,
    );
    let res = {
        let sprite = &entity_centered.sprite;
        let animation_name = &entity_centered.animation_name;
        print_sprite(sprite, &mut entity_centered.cursor, middle_x, middle_y, animation_name, &mut ops)
    };
    match res {
        Ok(()) => {},
        Err(err) => {
            proof {
                assert(false);
            }
            return Err(err);
        },
    }
    proof {
        assert(*entity_centered == entity_after_draw(*old(entity_centered)));
        assert(ops@ =~= seq![DrawOp::ClearAll] + focal_ops);
    }

    let focal_pos = entity_centered.position;
    let mut done: Vec<Entity> = Vec::new();
    while other_entities.len() > 0
        invariant
            focal_pos == old(entity_centered).position,
            *entity_centered == entity_after_draw(*old(entity_centered)),
            focal_ops == sprite_ops(
                old(entity_centered).sprite,
                old(entity_centered).cursor as nat,
                old(entity_centered).animation_name,
                (width / 2) as int,
                (height / 2) as int,
            ),
            done@.len() + other_entities@.len() == old(other_entities)@.len(),
            other_entities@ == old(other_entities)@.skip(done@.len() as int),
            forall|j: int| 0 <= j < old(other_entities)@.len()
                ==> (#[trigger] old(other_entities)@[j]).sprite.wf(),
            forall|j: int| 0 <= j < old(other_entities)@.len() ==> sprite_fits(
                (#[trigger] old(other_entities)@[j]).sprite,
                width as int,
                height as int,
            ),
            forall|j: int| 0 <= j < old(other_entities)@.len() ==> entity_pass_err(
                #[trigger] old(other_entities)@[j],
                focal_pos,
                width,
                height,
            ) is None,
            forall|j: int| 0 <= j < done@.len() ==> done@[j] == entity_after_pass(
                #[trigger] old(other_entities)@[j],
                focal_pos,
                width,
                height,
            ),
            ops@ == seq![DrawOp::ClearAll] + focal_ops + others_ops(
                old(other_entities)@.subrange(0, done@.len() as int),
                focal_pos,
                width,
                height,
            ),
        decreases other_entities@.len(),
    {
        let ghost k = done@.len() as int;
        let mut e = other_entities.remove(0);
        proof {
            assert(e == old(other_entities)@[k]);
            assert(other_entities@ =~= old(other_entities)@.skip(k + 1));
        }
        let ghost prev_ops = ops@;
        match project(focal_pos, e.position, width, height) {
            Some(p) => {
                proof {
                    lemma_sprite_fits_le(
                        e.sprite,
                        p.x as int,
                        p.y as int,
                        width as int,
                        height as int,
                    );
                }
                let res = {
                    let sprite = &e.sprite;
                    let animation_name = &e.animation_name;
                    print_sprite(sprite, &mut e.cursor, p.x, p.y, animation_name, &mut ops)
                };
                match res {
                    Ok(()) => {},
                    Err(err) => {
                        proof {
                            assert(false);
                        }
                        return Err(err);
                    },
                }
            },
            None => {},
        }
        proof {
            assert(e == entity_after_pass(old(other_entities)@[k], focal_pos, width, height));
            assert(ops@ =~= prev_ops + entity_pass_ops(
                old(other_entities)@[k],
                focal_pos,
                width,
                height,
            ));
            let pre = old(other_entities)@.subrange(0, k);
            let post = old(other_entities)@.subrange(0, k + 1);
            assert(post.drop_last() =~= pre);
            assert(post.last() == old(other_entities)@[k]);
            assert(ops@ =~= seq![DrawOp::ClearAll] + focal_ops + others_ops(
                post,
                focal_pos,
                width,
                height,
            ));
        }
        done.push(e);
    }
    *other_entities = done;
    push_park(&mut ops, width, height);
    proof {
        assert(old(other_entities)@.subrange(0, old(other_entities)@.len() as int)
            =~= old(other_entities)@);
        assert(ops@ =~= pass_ops(*old(entity_centered), old(other_entities)@, width, height));
    }
    Ok(ops)
}

/// Removing a culled entity changes no refusal either: it was exempt from
/// the checks to begin with.
proof fn lemma_culling_err_independent(
    others: Seq<Entity>,
    focal_pos: Position,
    width: u16,
    height: u16,
    i: int,
)
    requires
        0 <= i < others.len(),
        project_spec(focal_pos, others[i].position, width, height) is None,
    ensures
        others_err(others.remove(i), focal_pos, width, height) == others_err(
            others,
            focal_pos,
            width,
            height,
        ),
    decreases others.len(),
{
    if i == 0 {
        assert(others.remove(0) =~= others.drop_first());
    } else {
        lemma_culling_err_independent(others.drop_first(), focal_pos, width, height, i - 1);
        assert(others.remove(i).drop_first() =~= others.drop_first().remove(i - 1));
        assert(others.remove(i)[0] == others[0]);
        assert(others.drop_first()[i - 1] == others[i]);
    }
}

/// Culling independence at the whole-pass level: leaving a culled entity out
/// of the entity list changes neither the operations a centered pass
/// composes nor whether — and why — the pass refuses.
pub proof fn lemma_culled_entity_invisible(
    focal: Entity,
    others: Seq<Entity>,
    width: u16,
    height: u16,
    i: int,
)
    requires
        0 <= i < others.len(),
        project_spec(focal.position, others[i].position, width, height) is None,
    ensures
        pass_ops(focal, others.remove(i), width, height) == pass_ops(focal, others, width, height),
        pass_err(focal, others.remove(i), width, height) == pass_err(focal, others, width, height),
{
    lemma_culling_independent(others, focal.position, width, height, i);
    lemma_culling_err_independent(others, focal.position, width, height, i);
}

/// Culling independence law: a culled entity contributes no operation to a
/// centered pass, and leaving it out of the entity list changes nothing for
/// any other entity's operations.
pub proof fn lemma_culling_independent(
    others: Seq<Entity>,
    focal_pos: Position,
    width: u16,
    height: u16,
    i: int,
)
    requires
        0 <= i < others.len(),
        project_spec(focal_pos, others[i].position, width, height) is None,
    ensures
        entity_pass_ops(others[i], focal_pos, width, height) == Seq::<DrawOp>::empty(),
        others_ops(others.remove(i), focal_pos, width, height) == others_ops(
            others,
            focal_pos,
            width,
            height,
        ),
    decreases others.len(),
{
    if i == others.len() - 1 {
        assert(others.remove(i) =~= others.drop_last());
    } else {
        lemma_culling_independent(others.drop_last(), focal_pos, width, height, i);
        assert(others.remove(i).drop_last() =~= others.drop_last().remove(i));
        assert(others.remove(i).last() == others.last());
    }
}

} // verus!
