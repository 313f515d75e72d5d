//! Entities: a sprite placed in the world, with motion state and a private
//! animation cursor.

use vstd::prelude::*;

use crate::direction::Direction;
use crate::position::Position;
use crate::sprite::Sprite;

verus! {

/// One thing in a scene: a name, an owned sprite value, a world position, a
/// direction and speed for motion, the name of the animation it plays (if
/// any), and its own animation cursor. The cursor lives here and not in the
/// sprite, so entities sharing one sprite's data can never disturb each
/// other's playback position; it is advanced by exactly one owner per tick.
/// A fresh entity starts its cursor at 0, so an animation shows its first
/// frame on the entity's first draw.
#[derive(Clone, PartialEq, Debug)]
pub struct Entity {
    pub name: String,
    pub sprite: Sprite,
    pub position: Position,
    pub direction: Direction,
    pub speed: u16,
    pub animation_name: Option<String>,
    pub cursor: usize,
}

impl Entity {
    /// Builds a fresh entity from its parts. The animation cursor starts at
    /// 0, so a newly placed entity shows an animation's first frame on its
    /// first draw; everything else is taken exactly as given.
    pub fn new(
        name: String,
        sprite: Sprite,
        position: Position,
        direction: Direction,
        speed: u16,
        animation_name: Option<String>,
    ) -> (r: Entity)
        ensures
            r == (Entity {
                name: name,
                sprite: sprite,
                position: position,
                direction: direction,
                speed: speed,
                animation_name: animation_name,
                cursor: 0,
            }),
    {
        Entity { name, sprite, position, direction, speed, animation_name, cursor: 0 }
    }
}

/// One axis after a move: the net displacement of the two flags — each
/// contributing `speed`, so opposite flags cancel exactly — added in signed
/// arithmetic wide enough for any pair, then clamped once into `[0, max]`.
/// Clamping, not wrapping: a bounded unsigned position that wrapped would
/// teleport the entity to the opposite edge.
pub open spec fn moved_coord(pos: u16, dec: bool, inc: bool, speed: u16, max: u16) -> u16 {
    let net = pos + (if inc {
        speed as int
    } else {
        0
    }) - (if dec {
        speed as int
    } else {
        0
    });
    if net < 0 {
        0u16
    } else if net > max {
        max
    } else {
        net as u16
    }
}

/// The entity after one motion tick: `up` decreases y, `down` increases y,
/// `left` decreases x, `right` increases x, flags independent and free to
/// combine, each axis moving by its net displacement and clamped inside
/// `[0, max]`.
pub open spec fn moved_entity(e: Entity, max_x: u16, max_y: u16) -> Entity {
    Entity {
        position: Position {
            x: moved_coord(e.position.x, e.direction.left, e.direction.right, e.speed, max_x),
            y: moved_coord(e.position.y, e.direction.up, e.direction.down, e.speed, max_y),
        },
        ..e
    }
}

/// Applies one motion tick to an entity, exactly as [`moved_entity`] names
/// it; `max_x` and `max_y` are the world extent the position saturates at.
pub fn move_entity(entity: Entity, max_x: u16, max_y: u16) -> (r: Entity)
    ensures
        r == moved_entity(entity, max_x, max_y),
{
    let mut e = entity;
    let dx: i32 = (if e.direction.right {
        e.speed as i32
    } else {
        0
    }) - (if e.direction.left {
        e.speed as i32
    } else {
        0
    });
    let dy: i32 = (if e.direction.down {
        e.speed as i32
    } else {
        0
    }) - (if e.direction.up {
        e.speed as i32
    } else {
        0
    });
    let nx: i32 = e.position.x as i32 + dx;
    let ny: i32 = e.position.y as i32 + dy;
    e.position.x = if nx < 0 {
        0
    } else if nx > max_x as i32 {
        max_x
    } else {
        nx as u16
    };
    e.position.y = if ny < 0 {
        0
    } else if ny > max_y as i32 {
        max_y
    } else {
        ny as u16
    };
    e
}

/// Applies one motion tick to every entity of a collection, in place of the
/// caller's list, each entity independently of the others.
pub fn move_entities(entities: Vec<Entity>, max_x: u16, max_y: u16) -> (r: Vec<Entity>)
    ensures
        r@.len() == entities@.len(),
        forall|i: int| 0 <= i < entities@.len()
            ==> r@[i] == moved_entity(#[trigger] entities@[i], max_x, max_y),
{
    let mut rest = entities;
    let mut done: Vec<Entity> = Vec::new();
    while rest.len() > 0
        invariant
            done@.len() + rest@.len() == entities@.len(),
            rest@ == entities@.skip(done@.len() as int),
            forall|i: int| 0 <= i < done@.len()
                ==> done@[i] == moved_entity(#[trigger] entities@[i], max_x, max_y),
        decreases rest@.len(),
    {
        let e = rest.remove(0);
        proof {
            assert(e == entities@[done@.len() as int]);
            assert(rest@ =~= entities@.skip(done@.len() as int + 1));
        }
        let moved = move_entity(e, max_x, max_y);
        done.push(moved);
    }
    done
}

/// Motion saturation law: an entity standing inside the world at the right
/// edge and moving only right stays exactly where it is, for every positive
/// speed; an entity at the left edge moving only left does the same. Neither
/// axis ever wraps around.
pub proof fn lemma_motion_saturation(e: Entity, max_x: u16, max_y: u16)
    requires
        e.speed >= 1,
        e.position.y <= max_y,
    ensures
        e.position.x == max_x && e.direction == (Direction {
            up: false,
            down: false,
            left: false,
            right: true,
        }) ==> moved_entity(e, max_x, max_y).position == e.position,
        e.position.x == 0 && e.direction == (Direction {
            up: false,
            down: false,
            left: true,
            right: false,
        }) ==> moved_entity(e, max_x, max_y).position == e.position,
{
}

} // verus!
