//! The layout of a new round: two parallax background bands, a floor band,
//! three obstacle pairs and the player.
use vstd::prelude::*;
use crate::components::{
    Animation, BackgroundTag, CollisionBox, Components, Image, ObstacleTag, Position, Vec2,
};
use crate::physics::{OBSTACLE_HEIGHT, OBSTACLE_SPEED, OBSTACLE_WIDTH};
use crate::registry::World;
use crate::simulation::Simulation;
use crate::systems::{animations_wf, parts_wf, pending_wf, world_bounded};

verus! {

/// Tiles per background band, and the width of one.
pub const BACKGROUND_COPIES: u32 = 3;

pub const BACKGROUND_WIDTH: i64 = 7600;

/// Tiles in the floor band, the width of one, and the floor's height.
pub const FLOOR_COPIES: u32 = 5;

pub const FLOOR_WIDTH: i64 = 3200;

pub const FLOOR_TOP: i64 = 5200;

/// The first pair's column and the spacing between pairs.
pub const FIRST_PIPE_X: i64 = 9000;

pub const PIPE_SPACING: i64 = 3400;

/// Heights of the initial bottom and top halves.
pub const FIRST_BOTTOM_Y: i64 = 3600;

pub const FIRST_TOP_Y: i64 = -1200;

/// The player's start and box.
pub const PLAYER_X: i64 = 1000;

pub const PLAYER_Y: i64 = 2000;

pub const PLAYER_WIDTH: i64 = 580;

pub const PLAYER_HEIGHT: i64 = 720;

/// The images a round is drawn with.
pub struct RoundImages {
    /// One image per background band, back to front.
    pub backgrounds: [Image; 2],
    pub floor: Image,
    /// Bottom halves (large, middle, small), then the top half.
    pub pipes: [Image; 4],
    /// The player's animation frames.
    pub player_frames: Vec<Image>,
}

/// Tile `n` of background band `level` (1 or 2): the nearer band scrolls
/// faster.
pub open spec fn background_tile(image: Image, level: int, n: int) -> Components {
    Components {
        position: Some(
            Position {
                position: Vec2 { x: (BACKGROUND_WIDTH * n) as i64, y: 0 },
                speed: Vec2 { x: 0, y: 0 },
            },
        ),
        image: Some(image),
        animation: None,
        background: Some(
            BackgroundTag {
                velocity: (10 + 10 * level) as i64,
                width: BACKGROUND_WIDTH,
                num_copies: BACKGROUND_COPIES,
            },
        ),
        obstacle: None,
        collision: None,
    }
}

/// Tile `n` of the floor band.
pub open spec fn floor_tile(image: Image, n: int) -> Components {
    Components {
        position: Some(
            Position {
                position: Vec2 { x: (FLOOR_WIDTH * n) as i64, y: FLOOR_TOP },
                speed: Vec2 { x: 0, y: 0 },
            },
        ),
        image: Some(image),
        animation: None,
        background: Some(
            BackgroundTag { velocity: OBSTACLE_SPEED, width: FLOOR_WIDTH, num_copies: FLOOR_COPIES },
        ),
        obstacle: None,
        collision: None,
    }
}

/// Half `top` of initial pair `n`.
pub open spec fn first_pipe(pipes: [Image; 4], n: int, top: bool) -> Components {
    let x = (FIRST_PIPE_X + PIPE_SPACING * n) as i64;
    let y = if top { FIRST_TOP_Y } else { FIRST_BOTTOM_Y };
    Components {
        position: Some(Position { position: Vec2 { x, y }, speed: Vec2 { x: 0, y: 0 } }),
        image: Some(if top { pipes[3] } else { pipes[1] }),
        animation: None,
        background: Some(
            BackgroundTag { velocity: OBSTACLE_SPEED, width: OBSTACLE_WIDTH, num_copies: 1 },
        ),
        obstacle: Some(ObstacleTag { images: pipes, top }),
        collision: Some(
            CollisionBox { origin: Vec2 { x, y }, height: OBSTACLE_HEIGHT, width: OBSTACLE_WIDTH },
        ),
    }
}

/// The player at its start, on the first frame.
pub open spec fn player_parts(frames: Seq<Image>, parts: Components) -> bool {
    &&& parts.position == Some(
        Position { position: Vec2 { x: PLAYER_X, y: PLAYER_Y }, speed: Vec2 { x: 0, y: 0 } },
    )
    &&& parts.image is None
    &&& parts.animation is Some
    &&& parts.animation->Some_0.current_frame == 0
    &&& parts.animation->Some_0.max == frames.len()
    &&& parts.animation->Some_0.images@ == frames
    &&& parts.background is None
    &&& parts.obstacle is None
    &&& parts.collision == Some(
        CollisionBox {
            origin: Vec2 { x: PLAYER_X, y: PLAYER_Y },
            height: PLAYER_HEIGHT,
            width: PLAYER_WIDTH,
        },
    )
}

fn tile(x: i64, y: i64, image: Image, bg: BackgroundTag) -> (r: Components)
    ensures
        r == (Components {
            position: Some(Position { position: Vec2 { x, y }, speed: Vec2 { x: 0, y: 0 } }),
            image: Some(image),
            animation: None,
            background: Some(bg),
            obstacle: None,
            collision: None,
        }),
{
    Components {
        position: Some(Position::at(x, y)),
        image: Some(image),
        animation: None,
        background: Some(bg),
        obstacle: None,
        collision: None,
    }
}

fn pipe(pipes: [Image; 4], n: i64, top: bool) -> (r: Components)
    requires
        0 <= n < 3,
    ensures
        r == first_pipe(pipes, n as int, top),
{
    let x = FIRST_PIPE_X + PIPE_SPACING * n;
    let y = if top { FIRST_TOP_Y } else { FIRST_BOTTOM_Y };
    Components {
        position: Some(Position::at(x, y)),
        image: Some(if top { pipes[3] } else { pipes[1] }),
        animation: None,
        background: Some(
            BackgroundTag { velocity: OBSTACLE_SPEED, width: OBSTACLE_WIDTH, num_copies: 1 },
        ),
        obstacle: Some(ObstacleTag { images: pipes, top }),
        collision: Some(
            CollisionBox { origin: Vec2::new(x, y), height: OBSTACLE_HEIGHT, width: OBSTACLE_WIDTH },
        ),
    }
}

/// A new round: entities 0 to 5 are the two background bands (three tiles
/// each), 6 to 10 the floor tiles, 11 to 13 the bottom halves and 14 to 16
/// the top halves of the three pairs, and 17 the player. The round is on,
/// with a score of 0 and no jump requested.
pub fn new_round(images: RoundImages) -> (r: Simulation)
    requires
        0 < images.player_frames@.len() <= u32::MAX,
    ensures
        r.world.entities@.len() == 18,
        forall|i: int| 0 <= i < 18 ==> (#[trigger] r.world.entities@[i]).id == i,
        forall|i: int|
            0 <= i < 6 ==> (#[trigger] r.world.entities@[i]).parts == background_tile(
                images.backgrounds[i / 3],
                i / 3 + 1,
                i % 3,
            ),
        forall|i: int|
            6 <= i < 11 ==> (#[trigger] r.world.entities@[i]).parts == floor_tile(
                images.floor,
                i - 6,
            ),
        forall|i: int|
            11 <= i < 14 ==> (#[trigger] r.world.entities@[i]).parts == first_pipe(
                images.pipes,
                i - 11,
                false,
            ),
        forall|i: int|
            14 <= i < 17 ==> (#[trigger] r.world.entities@[i]).parts == first_pipe(
                images.pipes,
                i - 14,
                true,
            ),
        player_parts(images.player_frames@, r.world.entities@[17].parts),
        r.world.next_id == 18,
        r.world.pending_create@.len() == 0,
        r.world.pending_destroy@.len() == 0,
        r.game.playing,
        r.game.score == 0,
        !r.animate_when_over,
        r.input == r.player_input,
        !r.input.jump,
        r.input.release,
        r.wf(),
        world_bounded(r.world.entities@),
{
    let RoundImages { backgrounds, floor, pipes, player_frames } = images;
    let ghost frames = player_frames@;
    let mut world = World::new();
    let mut level: usize = 0;
    while level < 2
        invariant
            level <= 2,
            world.entities@.len() == 3 * level,
            world.next_id == 3 * level,
            world.pending_create@.len() == 0,
            world.pending_destroy@.len() == 0,
            forall|i: int| 0 <= i < 3 * level ==> (#[trigger] world.entities@[i]).id == i,
            forall|i: int|
                0 <= i < 3 * level ==> (#[trigger] world.entities@[i]).parts == background_tile(
                    backgrounds[i / 3],
                    i / 3 + 1,
                    i % 3,
                ),
        decreases 2 - level,
    {
        let bg = BackgroundTag {
            velocity: 10 + 10 * (level as i64 + 1),
            width: BACKGROUND_WIDTH,
            num_copies: BACKGROUND_COPIES,
        };
        let mut n: usize = 0;
        while n < 3
            invariant
                level < 2,
                n <= 3,
                bg == (BackgroundTag {
                    velocity: (10 + 10 * (level + 1)) as i64,
                    width: BACKGROUND_WIDTH,
                    num_copies: BACKGROUND_COPIES,
                }),
                world.entities@.len() == 3 * level + n,
                world.next_id == 3 * level + n,
                world.pending_create@.len() == 0,
                world.pending_destroy@.len() == 0,
                forall|i: int| 0 <= i < 3 * level + n ==> (#[trigger] world.entities@[i]).id == i,
                forall|i: int|
                    0 <= i < 3 * level + n ==> (#[trigger] world.entities@[i]).parts
                        == background_tile(backgrounds[i / 3], i / 3 + 1, i % 3),
            decreases 3 - n,
        {
            world.create(tile(BACKGROUND_WIDTH * n as i64, 0, backgrounds[level], bg));
            n = n + 1;
        }
        level = level + 1;
    }
    let floor_bg = BackgroundTag {
        velocity: OBSTACLE_SPEED,
        width: FLOOR_WIDTH,
        num_copies: FLOOR_COPIES,
    };
    let mut n: usize = 0;
    while n < 5
        invariant
            n <= 5,
            floor_bg == (BackgroundTag {
                velocity: OBSTACLE_SPEED,
                width: FLOOR_WIDTH,
                num_copies: FLOOR_COPIES,
            }),
            world.entities@.len() == 6 + n,
            world.next_id == 6 + n,
            world.pending_create@.len() == 0,
            world.pending_destroy@.len() == 0,
            forall|i: int| 0 <= i < 6 + n ==> (#[trigger] world.entities@[i]).id == i,
            forall|i: int|
                0 <= i < 6 ==> (#[trigger] world.entities@[i]).parts == background_tile(
                    backgrounds[i / 3],
                    i / 3 + 1,
                    i % 3,
                ),
            forall|i: int|
                6 <= i < 6 + n ==> (#[trigger] world.entities@[i]).parts == floor_tile(
                    floor,
                    i - 6,
                ),
        decreases 5 - n,
    {
        world.create(tile(FLOOR_WIDTH * n as i64, FLOOR_TOP, floor, floor_bg));
        n = n + 1;
    }
    let mut half: usize = 0;
    while half < 6
        invariant
            half <= 6,
            world.entities@.len() == 11 + half,
            world.next_id == 11 + half,
            world.pending_create@.len() == 0,
            world.pending_destroy@.len() == 0,
            forall|i: int| 0 <= i < 11 + half ==> (#[trigger] world.entities@[i]).id == i,
            forall|i: int|
                0 <= i < 6 ==> (#[trigger] world.entities@[i]).parts == background_tile(
                    backgrounds[i / 3],
                    i / 3 + 1,
                    i % 3,
                ),
            forall|i: int|
                6 <= i < 11 ==> (#[trigger] world.entities@[i]).parts == floor_tile(floor, i - 6),
            forall|i: int|
                11 <= i < 11 + half ==> (#[trigger] world.entities@[i]).parts == first_pipe(
                    pipes,
                    (i - 11) % 3,
                    i >= 14,
                ),
        decreases 6 - half,
    {
        world.create(pipe(pipes, (half % 3) as i64, half >= 3));
        half = half + 1;
    }
    let frame_count = player_frames.len() as u32;
    let player = Components {
        position: Some(Position::at(PLAYER_X, PLAYER_Y)),
        image: None,
        animation: Some(Animation::new(frame_count, player_frames)),
        background: None,
        obstacle: None,
        collision: Some(
            CollisionBox {
                origin: Vec2::new(PLAYER_X, PLAYER_Y),
                height: PLAYER_HEIGHT,
                width: PLAYER_WIDTH,
            },
        ),
    };
    world.create(player);
    let r = Simulation::new(world);
    assert(parts_wf(r.world.entities@[17].parts));
    assert(animations_wf(r.world.entities@));
    r
}

} // verus!
