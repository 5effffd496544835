//! Per-entity movement rules: vertical integration of the player,
//! background scrolling, and obstacle scrolling with recycling.
use vstd::prelude::*;
use crate::components::{
    in_limit, BackgroundTag, CollisionBox, Components, Direction, Image, ObstacleTag, Position, Vec2,
};

verus! {

/// Added to the vertical speed on each tick without a jump.
pub const GRAVITY: i64 = 3;

/// Subtracted from the vertical speed by a jump.
pub const JUMP_IMPULSE: i64 = 100;

/// A jump is applied only while the vertical speed is above this.
pub const MAX_RISE_SPEED: i64 = -100;

/// Gravity is applied only while the vertical speed is below this.
pub const MAX_FALL_SPEED: i64 = 60;

/// Lowest point the player may reach; the ceiling is at 0.
pub const FLOOR_Y: i64 = 4600;

/// Where a new obstacle pair enters, just past the right edge.
pub const SPAWN_X: i64 = 10240;

/// Where a retiring obstacle is parked before it is removed.
pub const PARKED_Y: i64 = 6000;

/// Width and height of an obstacle half.
pub const OBSTACLE_WIDTH: i64 = 640;

pub const OBSTACLE_HEIGHT: i64 = 2400;

/// Combined height of the two halves of a pair.
pub const PAIR_SPAN: i64 = 4800;

/// Leftward speed of an obstacle.
pub const OBSTACLE_SPEED: i64 = 40;

/// Whether the input asks for a jump on this tick.
pub open spec fn jump_fires(input: Direction) -> bool {
    input.jump && input.release
}

/// Vertical speed after the jump or the gravity of one tick, before the
/// floor and ceiling are applied.
pub open spec fn accelerated(vy: int, input: Direction) -> int {
    if jump_fires(input) {
        if vy > MAX_RISE_SPEED { vy - JUMP_IMPULSE } else { vy }
    } else if vy < MAX_FALL_SPEED {
        vy + GRAVITY
    } else {
        vy
    }
}

/// The player's position after one tick.
pub open spec fn integrate_spec(p: Position, input: Direction) -> Position {
    let vy = accelerated(p.speed.y as int, input);
    let y = p.position.y + vy;
    if y < 0 {
        Position { position: Vec2 { y: 0, ..p.position }, speed: Vec2 { y: 0, ..p.speed } }
    } else if y > FLOOR_Y {
        Position { position: Vec2 { y: FLOOR_Y, ..p.position }, speed: Vec2 { y: 0, ..p.speed } }
    } else {
        Position {
            position: Vec2 { y: y as i64, ..p.position },
            speed: Vec2 { y: vy as i64, ..p.speed },
        }
    }
}

/// The input after the player's tick: a jump that fired is consumed.
pub open spec fn consumed(input: Direction) -> Direction {
    if jump_fires(input) { Direction { jump: false, ..input } } else { input }
}

/// One tick of vertical movement for the player: a fresh jump request
/// applies the impulse (unless already rising at the limit) and is
/// consumed; otherwise gravity acts up to the fall-speed cap. The height is
/// then clamped to `[0, FLOOR_Y]`, and touching either bound stops the
/// vertical motion.
pub fn integrate_player(pos: &mut Position, dir: &mut Direction)
    requires
        old(pos).bounded(),
    ensures
        *final(pos) == integrate_spec(*old(pos), *old(dir)),
        *final(dir) == consumed(*old(dir)),
        0 <= final(pos).position.y <= FLOOR_Y,
        final(pos).bounded(),
{
    if dir.jump && dir.release {
        if pos.speed.y > MAX_RISE_SPEED {
            pos.speed.y = pos.speed.y - JUMP_IMPULSE;
        }
        dir.jump = false;
    } else if pos.speed.y < MAX_FALL_SPEED {
        pos.speed.y = pos.speed.y + GRAVITY;
    }
    pos.position.y = pos.position.y + pos.speed.y;
    if pos.position.y < 0 {
        pos.position.y = 0;
        pos.speed.y = 0;
    } else if pos.position.y > FLOOR_Y {
        pos.position.y = FLOOR_Y;
        pos.speed.y = 0;
    }
}

/// After a tick the player's height lies within `[0, FLOOR_Y]`, and a
/// vertical speed within `(MAX_RISE_SPEED - JUMP_IMPULSE, MAX_FALL_SPEED +
/// GRAVITY)` stays there.
pub proof fn lemma_player_height_bounded(p: Position, input: Direction)
    ensures
        0 <= integrate_spec(p, input).position.y <= FLOOR_Y,
        MAX_RISE_SPEED - JUMP_IMPULSE < p.speed.y < MAX_FALL_SPEED + GRAVITY ==> MAX_RISE_SPEED
            - JUMP_IMPULSE < integrate_spec(p, input).speed.y < MAX_FALL_SPEED + GRAVITY,
{
}

/// The vertical speed stays within `[MAX_RISE_SPEED, MAX_FALL_SPEED]` over a
/// tick that starts there, except where a jump fires while the speed is
/// strictly between `MAX_RISE_SPEED` and 0 (the impulse overshoots), or
/// gravity acts on a speed above `MAX_FALL_SPEED - GRAVITY` (the last step
/// of gravity overshoots the cap).
pub proof fn lemma_player_speed_bounded(p: Position, input: Direction)
    requires
        MAX_RISE_SPEED <= p.speed.y <= MAX_FALL_SPEED,
        jump_fires(input) ==> (p.speed.y >= 0 || p.speed.y == MAX_RISE_SPEED),
        !jump_fires(input) ==> (p.speed.y <= MAX_FALL_SPEED - GRAVITY || p.speed.y
            == MAX_FALL_SPEED),
    ensures
        MAX_RISE_SPEED <= integrate_spec(p, input).speed.y <= MAX_FALL_SPEED,
        0 <= integrate_spec(p, input).position.y <= FLOOR_Y,
{
}

/// A background tile's position after one tick: it moves left by the
/// tag's velocity and, once fully past the left edge, jumps forward by the
/// length of the band of tiles.
pub open spec fn scroll_spec(p: Position, bg: BackgroundTag) -> Position {
    let x = p.position.x - bg.velocity;
    let x2 = if x < -bg.width { x + bg.width * bg.num_copies } else { x };
    Position { position: Vec2 { x: x2 as i64, ..p.position }, ..p }
}

/// One tick of background scrolling.
pub fn scroll_background(pos: &mut Position, bg: &BackgroundTag)
    requires
        old(pos).bounded(),
        bg.bounded(),
    ensures
        *final(pos) == scroll_spec(*old(pos), *bg),
{
    pos.position.x = pos.position.x - bg.velocity;
    if pos.position.x < -bg.width {
        pos.position.x = pos.position.x + bg.width * (bg.num_copies as i64);
    }
}

/// Once a tile scrolls past `-width`, its next position is the scrolled
/// position moved forward by the band's length, so tiles keep their
/// spacing modulo that length.
pub proof fn lemma_background_wraps(p: Position, bg: BackgroundTag)
    requires
        p.bounded(),
        bg.bounded(),
    ensures
        retires(p, bg) ==> scroll_spec(p, bg).position.x == p.position.x - bg.velocity + bg.width
            * bg.num_copies,
        !retires(p, bg) ==> scroll_spec(p, bg).position.x == p.position.x - bg.velocity,
        bg.width * bg.num_copies > 0 ==> (scroll_spec(p, bg).position.x - (p.position.x
            - bg.velocity)) % (bg.width * bg.num_copies) == 0,
        scroll_spec(p, bg).position.y == p.position.y,
{
    let band = bg.width * bg.num_copies;
    if band > 0 {
        vstd::arithmetic::div_mod::lemma_mod_self_0(band);
        vstd::arithmetic::div_mod::lemma_small_mod(0, band as nat);
    }
}

/// The layout of a new obstacle pair: the top half's height, the bottom
/// half's height, and which of the tag's images the bottom half shows.
#[derive(Clone, Copy, Debug, PartialEq, Eq, Structural)]
pub struct GapLayout {
    pub top_y: i64,
    pub bottom_y: i64,
    pub bottom_image: usize,
}

/// The layout picked by a random draw; draws past the three listed rows
/// fall back to a pair parked below the screen.
pub open spec fn gap_layout_spec(draw: u32) -> GapLayout {
    if draw == 0 {
        GapLayout { top_y: -2400i64, bottom_y: 2400, bottom_image: 0 }
    } else if draw == 1 {
        GapLayout { top_y: -1200i64, bottom_y: 3600, bottom_image: 1 }
    } else if draw == 2 {
        GapLayout { top_y: 0, bottom_y: 4800, bottom_image: 2 }
    } else {
        GapLayout { top_y: PARKED_Y, bottom_y: PARKED_Y, bottom_image: 0 }
    }
}

pub fn gap_layout(draw: u32) -> (r: GapLayout)
    ensures
        r == gap_layout_spec(draw),
        r.bottom_image < 3,
{
    match draw {
        0 => GapLayout { top_y: -2400, bottom_y: 2400, bottom_image: 0 },
        1 => GapLayout { top_y: -1200, bottom_y: 3600, bottom_image: 1 },
        2 => GapLayout { top_y: 0, bottom_y: 4800, bottom_image: 2 },
        _ => GapLayout { top_y: PARKED_Y, bottom_y: PARKED_Y, bottom_image: 0 },
    }
}

/// Whether an obstacle has scrolled fully past the left edge.
pub open spec fn retires(p: Position, bg: BackgroundTag) -> bool {
    p.position.x - bg.velocity < -bg.width
}

/// An obstacle's position after one tick: it moves left; a retiring one is
/// moved to the spawn column and parked, a retiring top half at the height
/// of the new top half.
pub open spec fn obstacle_spec(p: Position, bg: BackgroundTag, tag: ObstacleTag, draw: u32) -> Position {
    if retires(p, bg) {
        let y = if tag.top { gap_layout_spec(draw).top_y } else { PARKED_Y };
        Position { position: Vec2 { x: SPAWN_X, y }, ..p }
    } else {
        Position { position: Vec2 { x: (p.position.x - bg.velocity) as i64, ..p.position }, ..p }
    }
}

/// One tick of obstacle scrolling; returns whether the obstacle retires.
pub fn scroll_obstacle(pos: &mut Position, bg: &BackgroundTag, tag: &ObstacleTag, draw: u32) -> (retired: bool)
    requires
        old(pos).bounded(),
        bg.bounded(),
    ensures
        retired == retires(*old(pos), *bg),
        *final(pos) == obstacle_spec(*old(pos), *bg, *tag, draw),
{
    pos.position.x = pos.position.x - bg.velocity;
    if pos.position.x < -bg.width {
        pos.position.x = SPAWN_X;
        pos.position.y = PARKED_Y;
        if tag.top {
            pos.position.y = gap_layout(draw).top_y;
        }
        true
    } else {
        false
    }
}

/// One half of a new obstacle pair, entering at the spawn column at height `y`.
pub open spec fn obstacle_half(tag: ObstacleTag, y: i64, image: Image, top: bool) -> Components {
    Components {
        position: Some(Position { position: Vec2 { x: SPAWN_X, y }, speed: Vec2 { x: 0, y: 0 } }),
        image: Some(image),
        animation: None,
        background: Some(
            BackgroundTag { velocity: OBSTACLE_SPEED, width: OBSTACLE_WIDTH, num_copies: 1 },
        ),
        obstacle: Some(ObstacleTag { images: tag.images, top }),
        collision: Some(
            CollisionBox {
                origin: Vec2 { x: SPAWN_X, y },
                height: OBSTACLE_HEIGHT,
                width: OBSTACLE_WIDTH,
            },
        ),
    }
}

/// The top half of the pair that a draw lays out; it shows the top image.
pub open spec fn new_top_spec(tag: ObstacleTag, draw: u32) -> Components {
    obstacle_half(tag, gap_layout_spec(draw).top_y, tag.images[3], true)
}

/// The bottom half of the pair that a draw lays out.
pub open spec fn new_bottom_spec(tag: ObstacleTag, draw: u32) -> Components {
    let layout = gap_layout_spec(draw);
    obstacle_half(tag, layout.bottom_y, tag.images[layout.bottom_image as int], false)
}

/// A retiring top half is replaced by exactly one top and one bottom half,
/// both at the spawn column and scrolling as obstacles, whose heights sum to
/// `PAIR_SPAN`.
pub proof fn lemma_pair_replacement(tag: ObstacleTag, draw: u32)
    ensures
        new_top_spec(tag, draw).obstacle->Some_0.top,
        !new_bottom_spec(tag, draw).obstacle->Some_0.top,
        new_top_spec(tag, draw).position->Some_0.position.x == SPAWN_X,
        new_bottom_spec(tag, draw).position->Some_0.position.x == SPAWN_X,
        new_top_spec(tag, draw).collision->Some_0.height + new_bottom_spec(
            tag,
            draw,
        ).collision->Some_0.height == PAIR_SPAN,
{
}

fn make_half(tag: &ObstacleTag, y: i64, image: Image, top: bool) -> (r: Components)
    ensures
        r == obstacle_half(*tag, y, image, top),
{
    Components {
        position: Some(Position::at(SPAWN_X, y)),
        image: Some(image),
        animation: None,
        background: Some(
            BackgroundTag { velocity: OBSTACLE_SPEED, width: OBSTACLE_WIDTH, num_copies: 1 },
        ),
        obstacle: Some(ObstacleTag { images: tag.images, top }),
        collision: Some(
            CollisionBox {
                origin: Vec2::new(SPAWN_X, y),
                height: OBSTACLE_HEIGHT,
                width: OBSTACLE_WIDTH,
            },
        ),
    }
}

/// The replacement pair for a retiring top half: a top and a bottom half at
/// the spawn column, laid out by the draw.
pub fn new_pair(tag: &ObstacleTag, draw: u32) -> (r: (Components, Components))
    ensures
        r.0 == new_top_spec(*tag, draw),
        r.1 == new_bottom_spec(*tag, draw),
{
    let layout = gap_layout(draw);
    let top = make_half(tag, layout.top_y, tag.images[3], true);
    let bottom = make_half(tag, layout.bottom_y, tag.images[layout.bottom_image], false);
    (top, bottom)
}

} // verus!
