//! The systems run over the registry each tick: animation timing, movement
//! and collision.
use vstd::prelude::*;
use crate::animation::{advance, next_frame};
use crate::collision::{boxes_overlap, overlaps};
use crate::components::{Animation, CollisionBox, Components, Direction, Game, Position};
use crate::physics::{
    consumed, integrate_player, integrate_spec, lemma_pair_replacement, new_bottom_spec, new_pair,
    new_top_spec, lemma_player_height_bounded, FLOOR_Y, PAIR_SPAN, SPAWN_X,
    obstacle_spec, retires, scroll_background, scroll_obstacle, scroll_spec,
};
use crate::registry::{spawned, survivors, Entity, World};

verus! {

/// The entity's animation, if any, is well formed.
pub open spec fn parts_wf(c: Components) -> bool {
    c.animation is Some ==> c.animation->Some_0.wf()
}

/// Every animation in the registry is well formed.
pub open spec fn animations_wf(es: Seq<Entity>) -> bool {
    forall|i: int| 0 <= i < es.len() ==> parts_wf(#[trigger] es[i].parts)
}

/// Every animation in a creation queue is well formed.
pub open spec fn pending_wf(cs: Seq<Components>) -> bool {
    forall|i: int| 0 <= i < cs.len() ==> parts_wf(#[trigger] cs[i])
}

/// A commit keeps animations well formed.
pub proof fn lemma_commit_keeps_wf(
    es: Seq<Entity>,
    doomed: Seq<u64>,
    parts: Seq<Components>,
    start: u64,
)
    requires
        animations_wf(es),
        pending_wf(parts),
    ensures
        animations_wf(survivors(es, doomed) + spawned(parts, start)),
{
    let f = survivors(es, doomed);
    let pred = |e: Entity| !doomed.contains(e.id);
    assert forall|i: int| 0 <= i < f.len() implies parts_wf(#[trigger] f[i].parts) by {
        assert(f.contains(f[i]));
        es.lemma_filter_contains_rev(pred, f[i]);
        let j = choose|j: int| 0 <= j < es.len() && es[j] == f[i];
        assert(parts_wf(es[j].parts));
    }
    let all = f + spawned(parts, start);
    assert forall|i: int| 0 <= i < all.len() implies parts_wf(#[trigger] all[i].parts) by {
        if i < f.len() {
            assert(all[i] == f[i]);
        } else {
            assert(all[i].parts == parts[i - f.len()]);
        }
    }
}

/// Every entity after one animation step.
pub open spec fn animate_all(es: Seq<Entity>) -> Seq<Entity> {
    es.map_values(|e: Entity| animated(e))
}

/// Every position and scroll tag in the registry is within the coordinate
/// limit.
pub open spec fn entity_bounded(c: Components) -> bool {
    &&& c.position is Some ==> c.position->Some_0.bounded()
    &&& c.background is Some ==> c.background->Some_0.bounded()
}

pub open spec fn world_bounded(es: Seq<Entity>) -> bool {
    forall|i: int| 0 <= i < es.len() ==> entity_bounded(#[trigger] es[i].parts)
}

/// An entity after one animation step.
pub open spec fn animated(e: Entity) -> Entity {
    match e.parts.animation {
        Some(a) => Entity {
            parts: Components {
                animation: Some(
                    Animation { current_frame: next_frame(a.current_frame, a.max), ..a },
                ),
                ..e.parts
            },
            ..e
        },
        None => e,
    }
}

/// Position after the player step (entities with a position and an
/// animation), with the input after it.
pub open spec fn after_player(c: Components, dir: Direction) -> (Option<Position>, Direction) {
    match c.position {
        Some(p) => if c.animation is Some {
            (Some(integrate_spec(p, dir)), consumed(dir))
        } else {
            (c.position, dir)
        },
        None => (c.position, dir),
    }
}

/// Position after the scroll step: background tiles wrap, obstacles move
/// and may retire.
pub open spec fn after_scroll(p: Option<Position>, c: Components, draw: u32) -> Option<Position> {
    match (p, c.background) {
        (Some(q), Some(bg)) => match c.obstacle {
            None => Some(scroll_spec(q, bg)),
            Some(tag) => Some(obstacle_spec(q, bg, tag, draw)),
        },
        _ => p,
    }
}

/// Whether the entity is an obstacle that retires on this tick.
pub open spec fn obstacle_retires(c: Components, dir: Direction) -> bool {
    let p = after_player(c, dir).0;
    &&& p is Some
    &&& c.background is Some
    &&& c.obstacle is Some
    &&& retires(p->Some_0, c.background->Some_0)
}

/// The entity's components after the movement pass.
pub open spec fn moved_parts(c: Components, dir: Direction, draw: u32) -> Components {
    let p = after_scroll(after_player(c, dir).0, c, draw);
    Components {
        position: p,
        collision: match (p, c.collision) {
            (Some(q), Some(b)) => Some(CollisionBox { origin: q.position, ..b }),
            _ => c.collision,
        },
        ..c
    }
}

/// What the movement pass queues for creation on behalf of the entity: a
/// new pair when a top half retires.
pub open spec fn spawns_of(c: Components, dir: Direction, draw: u32) -> Seq<Components> {
    if obstacle_retires(c, dir) && c.obstacle->Some_0.top {
        seq![new_top_spec(c.obstacle->Some_0, draw), new_bottom_spec(c.obstacle->Some_0, draw)]
    } else {
        seq![]
    }
}

/// What the movement pass queues for removal on behalf of the entity.
pub open spec fn removals_of(e: Entity, dir: Direction) -> Seq<u64> {
    if obstacle_retires(e.parts, dir) { seq![e.id] } else { seq![] }
}

/// Obstacles are recycled in pairs: an obstacle that retires is queued for
/// removal, and a retiring top half, and only such a one, queues exactly one
/// top and one bottom half at the spawn column, whose heights sum to
/// `PAIR_SPAN`.
pub proof fn lemma_recycle_pair_atomic(e: Entity, dir: Direction, draw: u32)
    ensures
        removals_of(e, dir).len() == (if obstacle_retires(e.parts, dir) { 1int } else { 0 }),
        obstacle_retires(e.parts, dir) ==> removals_of(e, dir)[0] == e.id,
        spawns_of(e.parts, dir, draw).len() == (if obstacle_retires(e.parts, dir)
            && e.parts.obstacle->Some_0.top {
            2int
        } else {
            0
        }),
        spawns_of(e.parts, dir, draw).len() == 2 ==> {
            let s = spawns_of(e.parts, dir, draw);
            &&& s[0].obstacle->Some_0.top
            &&& !s[1].obstacle->Some_0.top
            &&& s[0].position->Some_0.position.x == SPAWN_X
            &&& s[1].position->Some_0.position.x == SPAWN_X
            &&& s[0].collision->Some_0.height + s[1].collision->Some_0.height == PAIR_SPAN
        },
{
    if obstacle_retires(e.parts, dir) && e.parts.obstacle->Some_0.top {
        lemma_pair_replacement(e.parts.obstacle->Some_0, draw);
    }
}

/// The movement pass over a sequence of entities, in order, with the
/// random draw for the entity at index `i` taken from `draws[i]`: the
/// moved entities, the input afterwards, the identifiers queued for
/// removal and the entities queued for creation.
pub open spec fn movement(es: Seq<Entity>, dir: Direction, draws: Seq<u32>) -> (
    Seq<Entity>,
    Direction,
    Seq<u64>,
    Seq<Components>,
)
    decreases es.len(),
{
    if es.len() == 0 {
        (es, dir, seq![], seq![])
    } else {
        let prev = movement(es.drop_last(), dir, draws);
        let e = es.last();
        let d = prev.1;
        let draw = draws[es.len() - 1];
        (
            prev.0.push(Entity { parts: moved_parts(e.parts, d, draw), ..e }),
            after_player(e.parts, d).1,
            prev.2 + removals_of(e, d),
            prev.3 + spawns_of(e.parts, d, draw),
        )
    }
}

/// The movement pass keeps the entities, their identifiers and their
/// animations, and queues only entities without animation.
pub proof fn lemma_movement_len(es: Seq<Entity>, dir: Direction, draws: Seq<u32>)
    ensures
        movement(es, dir, draws).0.len() == es.len(),
        forall|i: int|
            0 <= i < es.len() ==> (#[trigger] movement(es, dir, draws).0[i]).id == es[i].id
                && movement(es, dir, draws).0[i].parts.animation == es[i].parts.animation,
        pending_wf(movement(es, dir, draws).3),
    decreases es.len(),
{
    if es.len() > 0 {
        lemma_movement_len(es.drop_last(), dir, draws);
        let prev = movement(es.drop_last(), dir, draws);
        let e = es.last();
        let sp = spawns_of(e.parts, prev.1, draws[es.len() - 1]);
        let all = prev.3 + sp;
        assert forall|i: int| 0 <= i < all.len() implies parts_wf(#[trigger] all[i]) by {
            if i >= prev.3.len() {
                assert(all[i] == sp[i - prev.3.len()]);
            }
        }
    }
}

/// After the movement pass every animated entity without an obstacle tag
/// (the player) is within `[0, FLOOR_Y]` in height.
pub proof fn lemma_movement_player_height(es: Seq<Entity>, dir: Direction, draws: Seq<u32>)
    ensures
        forall|i: int|
            0 <= i < es.len() && es[i].parts.position is Some && es[i].parts.animation is Some
                && es[i].parts.obstacle is None ==> {
                let p = (#[trigger] movement(es, dir, draws).0[i]).parts.position->Some_0;
                0 <= p.position.y <= FLOOR_Y
            },
    decreases es.len(),
{
    if es.len() > 0 {
        lemma_movement_player_height(es.drop_last(), dir, draws);
        lemma_movement_len(es.drop_last(), dir, draws);
        let prev = movement(es.drop_last(), dir, draws);
        let e = es.last();
        let q = integrate_spec(e.parts.position->Some_0, prev.1);
        lemma_player_height_bounded(e.parts.position->Some_0, prev.1);
        assert forall|i: int|
            0 <= i < es.len() && es[i].parts.position is Some && es[i].parts.animation is Some
                && es[i].parts.obstacle is None implies {
            let p = (#[trigger] movement(es, dir, draws).0[i]).parts.position->Some_0;
            0 <= p.position.y <= FLOOR_Y
        } by {
            if i < es.len() - 1 {
                assert(es[i] == es.drop_last()[i]);
            } else {
                match e.parts.background {
                    Some(bg) => {
                        assert(scroll_spec(q, bg).position.y == q.position.y);
                    },
                    None => {},
                }
            }
        }
    }
}

/// The movement pass queues at most two creations per entity.
pub proof fn lemma_movement_spawn_count(es: Seq<Entity>, dir: Direction, draws: Seq<u32>)
    ensures
        movement(es, dir, draws).3.len() <= 2 * es.len(),
    decreases es.len(),
{
    if es.len() > 0 {
        lemma_movement_spawn_count(es.drop_last(), dir, draws);
    }
}

/// The registry after `n` animation steps.
pub open spec fn animate_n(es: Seq<Entity>, n: nat) -> Seq<Entity>
    decreases n,
{
    if n == 0 {
        es
    } else {
        animate_all(animate_n(es, (n - 1) as nat))
    }
}

/// Animation steps change neither the number of entities, nor their
/// identifiers, positions, tags or boxes.
pub proof fn lemma_animate_n_keeps_layout(es: Seq<Entity>, n: nat)
    ensures
        animate_n(es, n).len() == es.len(),
        forall|i: int|
            0 <= i < es.len() ==> {
                let a = #[trigger] animate_n(es, n)[i];
                &&& a.id == es[i].id
                &&& a.parts.position == es[i].parts.position
                &&& a.parts.background == es[i].parts.background
                &&& a.parts.obstacle == es[i].parts.obstacle
                &&& a.parts.collision == es[i].parts.collision
                &&& (a.parts.animation is Some <==> es[i].parts.animation is Some)
            },
    decreases n,
{
    if n > 0 {
        lemma_animate_n_keeps_layout(es, (n - 1) as nat);
    }
}

/// Whether a player box (a box on an animated entity) overlaps a box on
/// an entity without animation.
pub open spec fn collided(es: Seq<Entity>) -> bool {
    exists|i: int, j: int|
        0 <= i < es.len() && 0 <= j < es.len() && is_player_box(#[trigger] es[i].parts)
            && is_other_box(#[trigger] es[j].parts) && overlaps(
            es[i].parts.collision->Some_0,
            es[j].parts.collision->Some_0,
        )
}

pub open spec fn is_player_box(c: Components) -> bool {
    c.collision is Some && c.animation is Some
}

pub open spec fn is_other_box(c: Components) -> bool {
    c.collision is Some && c.animation is None
}

/// Moves one entity: the player step, the scroll step and the sync of its
/// collision box to its position. Returns whether it retires, and the new
/// pair to create when a top half retires.
fn move_entity(e: &mut Entity, dir: &mut Direction, draw: u32) -> (r: (
    bool,
    Option<(Components, Components)>,
))
    requires
        entity_bounded(old(e).parts),
    ensures
        final(e).id == old(e).id,
        final(e).parts == moved_parts(old(e).parts, *old(dir), draw),
        *final(dir) == after_player(old(e).parts, *old(dir)).1,
        r.0 == obstacle_retires(old(e).parts, *old(dir)),
        spawns_of(old(e).parts, *old(dir), draw) == match r.1 {
            Some(pair) => seq![pair.0, pair.1],
            None => seq![],
        },
{
    let mut retired = false;
    let mut pair: Option<(Components, Components)> = None;
    match e.parts.position {
        Some(p0) => {
            let mut p = p0;
            if e.parts.animation.is_some() {
                integrate_player(&mut p, dir);
            }
            match e.parts.background {
                Some(bg) => match e.parts.obstacle {
                    None => scroll_background(&mut p, &bg),
                    Some(tag) => {
                        retired = scroll_obstacle(&mut p, &bg, &tag, draw);
                        if retired && tag.top {
                            pair = Some(new_pair(&tag, draw));
                        }
                    },
                },
                None => {},
            }
            e.parts.position = Some(p);
            match e.parts.collision {
                Some(b) => {
                    e.parts.collision = Some(
                        CollisionBox { origin: p.position, height: b.height, width: b.width },
                    );
                },
                None => {},
            }
        },
        None => {},
    }
    (retired, pair)
}

impl World {
    /// Advances every animation by one frame.
    pub fn run_animation(&mut self)
        requires
            animations_wf(old(self).entities@),
        ensures
            final(self).entities@ == animate_all(old(self).entities@),
            animations_wf(final(self).entities@),
            final(self).next_id == old(self).next_id,
            final(self).pending_create@ == old(self).pending_create@,
            final(self).pending_destroy@ == old(self).pending_destroy@,
    {
        let n: usize = self.entities.len();
        let mut i: usize = 0;
        while i < n
            invariant
                n == old(self).entities@.len(),
                self.entities@.len() == n,
                i <= n,
                forall|k: int| 0 <= k < i ==> self.entities@[k] == animated(old(self).entities@[k]),
                forall|k: int| i <= k < n ==> self.entities@[k] == old(self).entities@[k],
                animations_wf(old(self).entities@),
                animations_wf(self.entities@),
                self.next_id == old(self).next_id,
                self.pending_create@ == old(self).pending_create@,
                self.pending_destroy@ == old(self).pending_destroy@,
            decreases n - i,
        {
            match &mut self.entities[i].parts.animation {
                Some(a) => advance(a),
                None => {},
            }
            i = i + 1;
        }
        assert(self.entities@ =~= animate_all(old(self).entities@));
    }

    /// Runs `steps` animation passes.
    pub fn run_animation_steps(&mut self, steps: u32)
        requires
            animations_wf(old(self).entities@),
        ensures
            final(self).entities@ == animate_n(old(self).entities@, steps as nat),
            animations_wf(final(self).entities@),
            final(self).next_id == old(self).next_id,
            final(self).pending_create@ == old(self).pending_create@,
            final(self).pending_destroy@ == old(self).pending_destroy@,
    {
        let mut k: u32 = 0;
        while k < steps
            invariant
                k <= steps,
                self.entities@ == animate_n(old(self).entities@, k as nat),
                animations_wf(self.entities@),
                self.next_id == old(self).next_id,
                self.pending_create@ == old(self).pending_create@,
                self.pending_destroy@ == old(self).pending_destroy@,
            decreases steps - k,
        {
            self.run_animation();
            k = k + 1;
        }
    }

    /// The movement pass: moves every entity in order (see `movement`),
    /// queueing retiring obstacles for removal and their replacements for
    /// creation. `draws[i]` is the random draw for the entity at index `i`.
    /// Each entity goes through the player step, the scroll step and the box
    /// sync in that order; as each step reads only its own entity and the
    /// input, this equals running each step over all entities in turn.
    pub fn run_movement(&mut self, dir: &mut Direction, draws: &Vec<u32>)
        requires
            world_bounded(old(self).entities@),
            draws@.len() >= old(self).entities@.len(),
        ensures
            final(self).entities@ == movement(old(self).entities@, *old(dir), draws@).0,
            *final(dir) == movement(old(self).entities@, *old(dir), draws@).1,
            final(self).pending_destroy@ == old(self).pending_destroy@ + movement(
                old(self).entities@,
                *old(dir),
                draws@,
            ).2,
            final(self).pending_create@ == old(self).pending_create@ + movement(
                old(self).entities@,
                *old(dir),
                draws@,
            ).3,
            final(self).next_id == old(self).next_id,
    {
        let ghost es = self.entities@;
        let ghost d0 = *dir;
        let n: usize = self.entities.len();
        let mut i: usize = 0;
        while i < n
            invariant
                n == es.len(),
                i <= n,
                draws@.len() >= n,
                world_bounded(es),
                self.entities@ == movement(es.take(i as int), d0, draws@).0 + es.skip(i as int),
                *dir == movement(es.take(i as int), d0, draws@).1,
                self.pending_destroy@ == old(self).pending_destroy@ + movement(
                    es.take(i as int),
                    d0,
                    draws@,
                ).2,
                self.pending_create@ == old(self).pending_create@ + movement(
                    es.take(i as int),
                    d0,
                    draws@,
                ).3,
                self.next_id == old(self).next_id,
            decreases n - i,
        {
            proof {
                lemma_movement_len(es.take(i as int), d0, draws@);
                assert(es.take(i as int + 1).drop_last() =~= es.take(i as int));
                assert(self.entities@[i as int] == es[i as int]);
            }
            let ghost d = *dir;
            let ghost e = es[i as int];
            let ghost prev = movement(es.take(i as int), d0, draws@);
            let (retired, pair) = move_entity(&mut self.entities[i], dir, draws[i]);
            if retired {
                let id = self.entities[i].id;
                self.pending_destroy.push(id);
            }
            match pair {
                Some(halves) => {
                    self.pending_create.push(halves.0);
                    self.pending_create.push(halves.1);
                },
                None => {},
            }
            proof {
                let next = movement(es.take(i as int + 1), d0, draws@);
                assert(next.0 == prev.0.push(Entity { parts: moved_parts(e.parts, d, draws@[i as int]), ..e }));
                assert(self.entities@ =~= next.0 + es.skip(i as int + 1));
                assert(self.pending_destroy@ =~= old(self).pending_destroy@ + next.2);
                assert(self.pending_create@ =~= old(self).pending_create@ + next.3);
            }
            i = i + 1;
        }
        assert(es.take(n as int) =~= es);
        assert(es.skip(n as int) =~= Seq::<Entity>::empty());
    }

    /// Whether a player box overlaps any box of an entity without animation.
    pub fn detect_collision(&self) -> (r: bool)
        ensures
            r == collided(self.entities@),
    {
        let n: usize = self.entities.len();
        let mut i: usize = 0;
        while i < n
            invariant
                n == self.entities@.len(),
                i <= n,
                forall|a: int, b: int|
                    0 <= a < i && 0 <= b < n && is_player_box(#[trigger] self.entities@[a].parts)
                        && is_other_box(#[trigger] self.entities@[b].parts) ==> !overlaps(
                        self.entities@[a].parts.collision->Some_0,
                        self.entities@[b].parts.collision->Some_0,
                    ),
            decreases n - i,
        {
            if self.entities[i].parts.animation.is_some() {
                match &self.entities[i].parts.collision {
                    Some(player) => {
                        let mut j: usize = 0;
                        while j < n
                            invariant
                                n == self.entities@.len(),
                                i < n,
                                j <= n,
                                is_player_box(self.entities@[i as int].parts),
                                *player == self.entities@[i as int].parts.collision->Some_0,
                                forall|b: int|
                                    0 <= b < j && is_other_box(#[trigger] self.entities@[b].parts)
                                        ==> !overlaps(*player, self.entities@[b].parts.collision->Some_0),
                            decreases n - j,
                        {
                            if self.entities[j].parts.animation.is_none() {
                                match &self.entities[j].parts.collision {
                                    Some(other) => {
                                        if boxes_overlap(player, other) {
                                            assert(is_other_box(self.entities@[j as int].parts));
                                            assert(is_player_box(self.entities@[i as int].parts));
                                            assert(overlaps(
                                                self.entities@[i as int].parts.collision->Some_0,
                                                self.entities@[j as int].parts.collision->Some_0,
                                            ));
                                            return true;
                                        }
                                    },
                                    None => {},
                                }
                            }
                            j = j + 1;
                        }
                    },
                    None => {},
                }
            }
            i = i + 1;
        }
        false
    }

    /// The collision pass: ends the round when a player box overlaps an
    /// obstacle box.
    pub fn run_collision(&self, game: &mut Game)
        ensures
            *final(game) == (if collided(self.entities@) {
                Game { playing: false, ..*old(game) }
            } else {
                *old(game)
            }),
    {
        if self.detect_collision() {
            game.playing = false;
        }
    }
}

} // verus!
