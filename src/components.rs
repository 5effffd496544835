//! The component types attached to entities, and the process-wide resources.
use vstd::prelude::*;

verus! {

/// Largest magnitude of any coordinate, speed or size that the simulation
/// handles; with it every intermediate sum fits in an `i64`.
pub const COORD_LIMIT: i64 = 1_000_000_000_000;

pub open spec fn in_limit(v: int) -> bool {
    -COORD_LIMIT <= v <= COORD_LIMIT
}

/// A point or a velocity, in tenths of a pixel (per tick).
#[derive(Clone, Copy, Debug, PartialEq, Eq, Structural)]
pub struct Vec2 {
    pub x: i64,
    pub y: i64,
}

impl Vec2 {
    pub fn new(x: i64, y: i64) -> (r: Vec2)
        ensures
            r == (Vec2 { x, y }),
    {
        Vec2 { x, y }
    }

    pub open spec fn bounded(self) -> bool {
        in_limit(self.x as int) && in_limit(self.y as int)
    }
}

/// World-space position and velocity; y grows downwards.
#[derive(Clone, Copy, Debug, PartialEq, Eq, Structural)]
pub struct Position {
    pub position: Vec2,
    pub speed: Vec2,
}

impl Position {
    /// A position at rest.
    pub fn at(x: i64, y: i64) -> (r: Position)
        ensures
            r == (Position { position: Vec2 { x, y }, speed: Vec2 { x: 0, y: 0 } }),
    {
        Position { position: Vec2::new(x, y), speed: Vec2::new(0, 0) }
    }

    pub open spec fn bounded(self) -> bool {
        self.position.bounded() && self.speed.bounded()
    }
}

/// An opaque handle to an already loaded image.
#[derive(Clone, Copy, Debug, PartialEq, Eq, Structural)]
pub struct Image {
    pub image: u32,
}

impl Image {
    /// Wraps the handle under which the host keeps a loaded image.
    pub fn new(handle: u32) -> (r: Image)
        ensures
            r.image == handle,
    {
        Image { image: handle }
    }
}

/// A cycling sequence of sprite frames.
#[derive(Clone, Debug)]
pub struct Animation {
    pub current_frame: u32,
    pub max: u32,
    pub images: Vec<Image>,
}

impl Animation {
    /// Frame index in range, one image per frame.
    pub open spec fn wf(&self) -> bool {
        &&& self.current_frame < self.max
        &&& self.images@.len() == self.max
    }

    pub fn new(max: u32, images: Vec<Image>) -> (r: Animation)
        requires
            0 < max,
            images@.len() == max,
        ensures
            r.current_frame == 0,
            r.max == max,
            r.images@ == images@,
            r.wf(),
    {
        Animation { current_frame: 0, max, images }
    }
}

/// Marks an entity that scrolls left by `velocity` each tick over a band of
/// `num_copies` tiles, each `width` wide.
#[derive(Clone, Copy, Debug, PartialEq, Eq, Structural)]
pub struct BackgroundTag {
    pub velocity: i64,
    pub width: i64,
    pub num_copies: u32,
}

impl BackgroundTag {
    pub open spec fn bounded(self) -> bool {
        &&& in_limit(self.velocity as int)
        &&& in_limit(self.width as int)
        &&& in_limit(self.width * self.num_copies)
    }
}

/// Marks one half of an obstacle pair. `images` holds the three bottom
/// images (large, middle, small) and the top image.
#[derive(Clone, Copy, Debug)]
pub struct ObstacleTag {
    pub images: [Image; 4],
    pub top: bool,
}

/// An axis-aligned box used for overlap tests.
#[derive(Clone, Copy, Debug, PartialEq, Eq, Structural)]
pub struct CollisionBox {
    pub origin: Vec2,
    pub height: i64,
    pub width: i64,
}

impl CollisionBox {
    pub open spec fn bounded(self) -> bool {
        &&& self.origin.bounded()
        &&& in_limit(self.height as int)
        &&& in_limit(self.width as int)
    }
}

/// The components attached to one entity, each optional.
#[derive(Clone, Debug)]
pub struct Components {
    pub position: Option<Position>,
    pub image: Option<Image>,
    pub animation: Option<Animation>,
    pub background: Option<BackgroundTag>,
    pub obstacle: Option<ObstacleTag>,
    pub collision: Option<CollisionBox>,
}

impl Components {
    /// An entity with no component yet.
    pub fn empty() -> (r: Components)
        ensures
            r.position is None,
            r.image is None,
            r.animation is None,
            r.background is None,
            r.obstacle is None,
            r.collision is None,
    {
        Components {
            position: None,
            image: None,
            animation: None,
            background: None,
            obstacle: None,
            collision: None,
        }
    }
}

/// The jump input: `jump` is a pending request, `release` that the key was
/// let go since the last press.
#[derive(Clone, Copy, Debug, PartialEq, Eq, Structural)]
pub struct Direction {
    pub jump: bool,
    pub release: bool,
}

impl Direction {
    pub fn new() -> (r: Direction)
        ensures
            r == (Direction { jump: false, release: true }),
    {
        Direction { jump: false, release: true }
    }
}

/// Round state: whether the round is still on, and the score.
#[derive(Clone, Copy, Debug, PartialEq, Eq, Structural)]
pub struct Game {
    pub playing: bool,
    pub score: i64,
}

impl Game {
    pub fn new() -> (r: Game)
        ensures
            r == (Game { playing: true, score: 0 }),
    {
        Game { playing: true, score: 0 }
    }
}

} // verus!
