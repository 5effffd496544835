//! The per-tick driver and the round's state machine: while the round is
//! on, each tick counts one point, runs the animation steps that are due,
//! then movement, then collision, then commits the queued mutations. Once
//! a collision ends the round, ticks change nothing but, where the
//! simulation is set to, the animation frames.
use vstd::prelude::*;
use rand::Rng;
use crate::components::{in_limit, Direction, Game, COORD_LIMIT};
use crate::registry::{spawned, survivors, World};
use crate::systems::{
    animate_n, animations_wf, collided, entity_bounded, lemma_animate_n_keeps_layout, lemma_commit_keeps_wf,
    lemma_movement_len, lemma_movement_spawn_count, movement, parts_wf, pending_wf,
    world_bounded,
};

verus! {

/// The keys the simulation reacts to.
#[derive(Clone, Copy, Debug, PartialEq, Eq, Structural)]
pub enum Key {
    Space,
    Escape,
    Other,
}

/// Everything a round consists of: the registry, the round state, the
/// input that the systems read, and the input as the key handler keeps it.
pub struct Simulation {
    pub world: World,
    pub game: Game,
    pub input: Direction,
    pub player_input: Direction,
    /// Whether the animation passes keep running once the round is over.
    pub animate_when_over: bool,
}

/// Number of listed gap layouts; a random draw picks one of them.
pub const GAP_CHOICES: u32 = 3;

/// Relies on rand's `thread_rng().gen_range(low, high)`: a uniformly drawn
/// value in `[low, high)`. It panics when `low >= high`, which `requires`
/// rules out.
#[verifier::external_body]
fn random_in_range(low: u32, high: u32) -> (r: u32)
    requires
        low < high,
    ensures
        low <= r < high,
{
    rand::thread_rng().gen_range(low, high)
}

/// Draws `n` gap choices, each below `GAP_CHOICES`.
pub fn draw_gap_choices(n: usize) -> (r: Vec<u32>)
    ensures
        r@.len() == n,
        forall|i: int| 0 <= i < n ==> r@[i] < GAP_CHOICES,
{
    let mut draws: Vec<u32> = Vec::new();
    let mut i: usize = 0;
    while i < n
        invariant
            i <= n,
            draws@.len() == i,
            forall|k: int| 0 <= k < i ==> draws@[k] < GAP_CHOICES,
        decreases n - i,
    {
        let d = random_in_range(0, GAP_CHOICES);
        draws.push(d);
        i = i + 1;
    }
    draws
}

/// How a tick of a round in play relates the state before to the state
/// after, with `draws[i]` as the random draw for the entity at index `i`.
pub open spec fn ticked(pre: Simulation, post: Simulation, animation_steps: nat, draws: Seq<u32>) -> bool {
    let mv = movement(animate_n(pre.world.entities@, animation_steps), pre.input, draws);
    &&& post.game.score == pre.game.score + 1
    &&& post.game.playing == !collided(mv.0)
    &&& post.input == mv.1
    &&& post.player_input == pre.player_input
    &&& post.animate_when_over == pre.animate_when_over
    &&& post.world.entities@ == survivors(mv.0, pre.world.pending_destroy@ + mv.2) + spawned(
        pre.world.pending_create@ + mv.3,
        pre.world.next_id,
    )
    &&& post.world.next_id == pre.world.next_id + pre.world.pending_create@.len() + mv.3.len()
    &&& post.world.pending_create@.len() == 0
    &&& post.world.pending_destroy@.len() == 0
}

/// How a tick after the round is over relates the state before to the
/// state after: the animation passes run if the simulation is set to keep
/// animating, and nothing else changes.
pub open spec fn over_ticked(pre: Simulation, post: Simulation, animation_steps: nat) -> bool {
    if pre.animate_when_over {
        &&& post.world.entities@ == animate_n(pre.world.entities@, animation_steps)
        &&& post.world.next_id == pre.world.next_id
        &&& post.world.pending_create@ == pre.world.pending_create@
        &&& post.world.pending_destroy@ == pre.world.pending_destroy@
        &&& post.game == pre.game
        &&& post.input == pre.input
        &&& post.player_input == pre.player_input
        &&& post.animate_when_over == pre.animate_when_over
    } else {
        post == pre
    }
}

/// Once the round is over a tick changes neither the score nor any
/// entity's identifier, position or collision box.
pub proof fn lemma_game_over_freezes(pre: Simulation, post: Simulation, animation_steps: nat)
    requires
        over_ticked(pre, post, animation_steps),
    ensures
        post.game == pre.game,
        post.world.entities@.len() == pre.world.entities@.len(),
        forall|i: int|
            0 <= i < pre.world.entities@.len() ==> {
                let a = #[trigger] post.world.entities@[i];
                &&& a.id == pre.world.entities@[i].id
                &&& a.parts.position == pre.world.entities@[i].parts.position
                &&& a.parts.collision == pre.world.entities@[i].parts.collision
            },
{
    lemma_animate_n_keeps_layout(pre.world.entities@, animation_steps);
}

impl Simulation {
    pub open spec fn wf(&self) -> bool {
        &&& animations_wf(self.world.entities@)
        &&& pending_wf(self.world.pending_create@)
    }

    /// What a tick of a round in play needs of the machine: coordinates
    /// within the limit, room for the score and for fresh identifiers.
    pub open spec fn tick_ready(&self) -> bool {
        &&& world_bounded(self.world.entities@)
        &&& self.game.score < i64::MAX
        &&& self.world.next_id + self.world.pending_create@.len() + 2 * self.world.entities@.len()
            <= u64::MAX
    }

    /// A fresh round on the given registry; animation stops with the round.
    pub fn new(world: World) -> (r: Simulation)
        ensures
            r.world == world,
            !r.animate_when_over,
            r.game == (Game { playing: true, score: 0 }),
            r.input == (Direction { jump: false, release: true }),
            r.player_input == (Direction { jump: false, release: true }),
    {
        Simulation {
            world,
            game: Game::new(),
            input: Direction::new(),
            player_input: Direction::new(),
            animate_when_over: false,
        }
    }

    /// One tick. While the round is on: the score grows by one,
    /// `animation_steps` animation passes run, then the movement pass (with
    /// `draws[i]` as the random draw for the entity at index `i`), then the
    /// collision pass, and the queued mutations are committed. Once the
    /// round is over nothing changes.
    pub fn update(&mut self, animation_steps: u32, draws: &Vec<u32>)
        requires
            old(self).wf(),
            old(self).game.playing ==> old(self).tick_ready(),
            old(self).game.playing ==> draws@.len() >= old(self).world.entities@.len(),
        ensures
            final(self).wf(),
            !old(self).game.playing ==> over_ticked(*old(self), *final(self), animation_steps as nat),
            old(self).game.playing ==> ticked(*old(self), *final(self), animation_steps as nat, draws@),
    {
        if !self.game.playing {
            if self.animate_when_over {
                self.world.run_animation_steps(animation_steps);
            }
            return;
        }
        self.game.score = self.game.score + 1;
        let ghost es = self.world.entities@;
        self.world.run_animation_steps(animation_steps);
        proof {
            lemma_animate_n_keeps_layout(es, animation_steps as nat);
            let a = animate_n(es, animation_steps as nat);
            assert forall|i: int| 0 <= i < a.len() implies crate::systems::entity_bounded(
                #[trigger] a[i].parts,
            ) by {
                assert(crate::systems::entity_bounded(es[i].parts));
            }
            lemma_movement_spawn_count(a, self.input, draws@);
        }
        let ghost a = self.world.entities@;
        let ghost d = self.input;
        self.world.run_movement(&mut self.input, draws);
        self.world.run_collision(&mut self.game);
        proof {
            let mv = movement(a, d, draws@);
            lemma_movement_len(a, d, draws@);
            assert forall|i: int| 0 <= i < mv.0.len() implies parts_wf(#[trigger] mv.0[i].parts) by {
                assert(parts_wf(a[i].parts));
            }
            let q = self.world.pending_create@;
            let old_q = old(self).world.pending_create@;
            assert forall|i: int| 0 <= i < q.len() implies parts_wf(#[trigger] q[i]) by {
                if i < old_q.len() {
                    assert(q[i] == old_q[i]);
                } else {
                    assert(q[i] == mv.3[i - old_q.len()]);
                }
            }
            lemma_commit_keeps_wf(
                self.world.entities@,
                self.world.pending_destroy@,
                q,
                self.world.next_id,
            );
        }
        self.world.maintain();
    }

    /// One tick with fresh random gap choices, one per entity.
    pub fn update_random(&mut self, animation_steps: u32)
        requires
            old(self).wf(),
            old(self).game.playing ==> old(self).tick_ready(),
        ensures
            final(self).wf(),
            !old(self).game.playing ==> over_ticked(*old(self), *final(self), animation_steps as nat),
            old(self).game.playing ==> exists|draws: Seq<u32>|
                {
                    &&& draws.len() == old(self).world.entities@.len()
                    &&& forall|i: int| 0 <= i < draws.len() ==> draws[i] < GAP_CHOICES
                    &&& #[trigger] ticked(*old(self), *final(self), animation_steps as nat, draws)
                },
    {
        let draws = draw_gap_choices(self.world.entities.len());
        self.update(animation_steps, &draws);
        assert(self.game.playing ==> ticked(*old(self), *self, animation_steps as nat, draws@));
    }

    /// Whether `tick_ready` holds.
    pub fn can_tick(&self) -> (r: bool)
        ensures
            r == self.tick_ready(),
    {
        if self.game.score == i64::MAX {
            return false;
        }
        let n = self.world.entities.len() as u64;
        let queued = self.world.pending_create.len() as u64;
        let room = u64::MAX - self.world.next_id;
        if queued > room || n > (room - queued) / 2 {
            return false;
        }
        is_world_bounded(&self.world)
    }

    /// A key press: the space bar requests a jump and marks the key as
    /// held; escape asks to quit. Repeats are ignored. The systems' input
    /// is then overwritten with the handler's.
    pub fn key_down_event(&mut self, key: Key, repeat: bool) -> (quit: bool)
        ensures
            quit == (!repeat && key == Key::Escape),
            final(self).player_input == (if !repeat && key == Key::Space {
                Direction { jump: true, release: false }
            } else {
                old(self).player_input
            }),
            final(self).input == final(self).player_input,
            final(self).world == old(self).world,
            final(self).game == old(self).game,
            final(self).animate_when_over == old(self).animate_when_over,
    {
        let mut quit = false;
        if !repeat {
            match key {
                Key::Space => {
                    self.player_input.jump = true;
                    self.player_input.release = false;
                },
                Key::Escape => {
                    quit = true;
                },
                Key::Other => {},
            }
        }
        self.input = self.player_input;
        quit
    }

    /// A key release: releasing the space bar re-arms the jump. The
    /// systems' input is then overwritten with the handler's.
    pub fn key_up_event(&mut self, key: Key)
        ensures
            final(self).player_input == (if key == Key::Space {
                Direction { release: true, ..old(self).player_input }
            } else {
                old(self).player_input
            }),
            final(self).input == final(self).player_input,
            final(self).world == old(self).world,
            final(self).game == old(self).game,
            final(self).animate_when_over == old(self).animate_when_over,
    {
        if key == Key::Space {
            self.player_input.release = true;
        }
        self.input = self.player_input;
    }
}

/// Whether every position and scroll tag is within the coordinate limit.
pub fn is_world_bounded(world: &World) -> (r: bool)
    ensures
        r == world_bounded(world.entities@),
{
    let n = world.entities.len();
    let mut i: usize = 0;
    while i < n
        invariant
            n == world.entities@.len(),
            i <= n,
            forall|k: int| 0 <= k < i ==> entity_bounded(#[trigger] world.entities@[k].parts),
        decreases n - i,
    {
        let c = &world.entities[i].parts;
        let ok = match c.position {
            Some(p) => in_limit_exec(p.position.x) && in_limit_exec(p.position.y)
                && in_limit_exec(p.speed.x) && in_limit_exec(p.speed.y),
            None => true,
        } && match c.background {
            Some(bg) => in_limit_exec(bg.velocity) && in_limit_exec(bg.width)
                && band_in_limit(bg.width, bg.num_copies),
            None => true,
        };
        if !ok {
            return false;
        }
        i = i + 1;
    }
    true
}

fn in_limit_exec(v: i64) -> (r: bool)
    ensures
        r == in_limit(v as int),
{
    -COORD_LIMIT <= v && v <= COORD_LIMIT
}

/// Whether `width * copies` is within the coordinate limit.
fn band_in_limit(width: i64, copies: u32) -> (r: bool)
    ensures
        r == in_limit(width * copies),
{
    let w = width as i128;
    let c = copies as i128;
    proof {
        assert(-0x8000_0000_0000_0000 * 0x1_0000_0000 <= w * c <= 0x8000_0000_0000_0000
            * 0x1_0000_0000) by (nonlinear_arith)
            requires
                -0x8000_0000_0000_0000 <= w <= 0x8000_0000_0000_0000,
                0 <= c <= 0x1_0000_0000,
        {
        }
    }
    let band = w * c;
    -(COORD_LIMIT as i128) <= band && band <= COORD_LIMIT as i128
}

} // verus!
