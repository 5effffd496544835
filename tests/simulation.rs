use rusty_bird::animation::advance;
use rusty_bird::collision::boxes_overlap;
use rusty_bird::components::{
    Animation, BackgroundTag, CollisionBox, Components, Direction, Game, Image, ObstacleTag,
    Position, Vec2,
};
use rusty_bird::physics::{
    gap_layout, integrate_player, new_pair, scroll_background, scroll_obstacle, FLOOR_Y,
    PARKED_Y, SPAWN_X,
};
use rusty_bird::registry::World;
use rusty_bird::setup::{new_round, RoundImages};
use rusty_bird::simulation::{draw_gap_choices, is_world_bounded, Key, Simulation};

fn player_at(y: i64, vy: i64) -> Position {
    Position { position: Vec2 { x: 1000, y }, speed: Vec2 { x: 0, y: vy } }
}

fn pipes() -> [Image; 4] {
    [Image::new(0), Image::new(1), Image::new(2), Image::new(3)]
}

fn obstacle(x: i64, y: i64, top: bool) -> Components {
    Components {
        position: Some(Position::at(x, y)),
        image: Some(Image::new(if top { 3 } else { 1 })),
        animation: None,
        background: Some(BackgroundTag { velocity: 40, width: 640, num_copies: 1 }),
        obstacle: Some(ObstacleTag { images: pipes(), top }),
        collision: Some(CollisionBox { origin: Vec2::new(x, y), height: 2400, width: 640 }),
    }
}

fn player(x: i64, y: i64) -> Components {
    Components {
        position: Some(Position::at(x, y)),
        image: None,
        animation: Some(Animation::new(4, vec![Image::new(10), Image::new(11), Image::new(12), Image::new(13)])),
        background: None,
        obstacle: None,
        collision: Some(CollisionBox { origin: Vec2::new(x, y), height: 720, width: 580 }),
    }
}

fn images() -> RoundImages {
    RoundImages {
        backgrounds: [Image::new(20), Image::new(21)],
        floor: Image::new(22),
        pipes: pipes(),
        player_frames: vec![Image::new(10), Image::new(11), Image::new(12), Image::new(13)],
    }
}

#[test]
fn gravity_from_rest() {
    let mut p = player_at(2000, 0);
    let mut dir = Direction::new();
    integrate_player(&mut p, &mut dir);
    assert_eq!(p.speed.y, 3);
    assert_eq!(p.position.y, 2003);
    assert_eq!(dir, Direction::new());
}

#[test]
fn ceiling_stops_rise() {
    let mut p = player_at(50, -60);
    let mut dir = Direction::new();
    integrate_player(&mut p, &mut dir);
    assert_eq!(p.position.y, 0);
    assert_eq!(p.speed.y, 0);
}

#[test]
fn floor_stops_fall() {
    let mut p = player_at(4590, 60);
    let mut dir = Direction::new();
    integrate_player(&mut p, &mut dir);
    assert_eq!(p.position.y, FLOOR_Y);
    assert_eq!(p.speed.y, 0);
}

#[test]
fn fresh_jump_applies_impulse_once() {
    let mut p = player_at(2000, 30);
    let mut dir = Direction { jump: true, release: true };
    integrate_player(&mut p, &mut dir);
    assert_eq!(p.speed.y, -70);
    assert_eq!(p.position.y, 1930);
    assert!(!dir.jump);
    assert!(dir.release);
}

#[test]
fn held_jump_does_not_fire() {
    let mut p = player_at(2000, 0);
    let mut dir = Direction { jump: true, release: false };
    integrate_player(&mut p, &mut dir);
    assert_eq!(p.speed.y, 3);
    assert!(dir.jump);
}

#[test]
fn jump_not_applied_at_rise_limit() {
    let mut p = player_at(2000, -100);
    let mut dir = Direction { jump: true, release: true };
    integrate_player(&mut p, &mut dir);
    assert_eq!(p.speed.y, -100);
    assert_eq!(p.position.y, 1900);
    assert!(!dir.jump);
}

#[test]
fn fall_speed_capped() {
    let mut p = player_at(1000, 60);
    let mut dir = Direction::new();
    integrate_player(&mut p, &mut dir);
    assert_eq!(p.speed.y, 60);
    assert_eq!(p.position.y, 1060);
}

#[test]
fn speed_and_height_stay_in_range_over_many_ticks() {
    let mut p = player_at(2000, 0);
    let mut dir = Direction::new();
    for t in 0..500 {
        if t % 40 == 0 {
            dir = Direction { jump: true, release: true };
        }
        integrate_player(&mut p, &mut dir);
        assert!(p.position.y >= 0 && p.position.y <= FLOOR_Y);
        assert!(p.speed.y > -200 && p.speed.y < 63);
    }
}

#[test]
fn background_wraps_by_band_length() {
    let bg = BackgroundTag { velocity: 30, width: 7600, num_copies: 3 };
    let mut p = Position::at(-7590, 0);
    scroll_background(&mut p, &bg);
    assert_eq!(p.position.x, -7620 + 22800);
    let mut q = Position::at(-7570, 0);
    scroll_background(&mut q, &bg);
    assert_eq!(q.position.x, -7600);
}

#[test]
fn gap_layouts() {
    let rows = [(0u32, -2400i64, 2400i64, 0usize), (1, -1200, 3600, 1), (2, 0, 4800, 2), (3, PARKED_Y, PARKED_Y, 0), (7, PARKED_Y, PARKED_Y, 0)];
    for (draw, top, bottom, img) in rows {
        let g = gap_layout(draw);
        assert_eq!((g.top_y, g.bottom_y, g.bottom_image), (top, bottom, img));
    }
}

#[test]
fn new_pair_heights_sum_to_span() {
    let tag = ObstacleTag { images: pipes(), top: true };
    for draw in 0..4u32 {
        let (top, bottom) = new_pair(&tag, draw);
        let t = top.collision.unwrap();
        let b = bottom.collision.unwrap();
        assert_eq!(t.height + b.height, 4800);
        assert!(top.obstacle.unwrap().top);
        assert!(!bottom.obstacle.unwrap().top);
        assert_eq!(top.position.unwrap().position.x, SPAWN_X);
        assert_eq!(bottom.position.unwrap().position.x, SPAWN_X);
        assert_eq!(top.image, Some(Image::new(3)));
    }
    let (_, bottom) = new_pair(&tag, 1);
    assert_eq!(bottom.image, Some(Image::new(1)));
    assert_eq!(bottom.position.unwrap().position.y, 3600);
}

#[test]
fn retiring_obstacle_moves_to_spawn_column() {
    let bg = BackgroundTag { velocity: 40, width: 640, num_copies: 1 };
    let top = ObstacleTag { images: pipes(), top: true };
    let bottom = ObstacleTag { images: pipes(), top: false };
    let mut p = Position::at(-650, -1200);
    assert!(scroll_obstacle(&mut p, &bg, &top, 2));
    assert_eq!(p.position, Vec2::new(SPAWN_X, 0));
    let mut q = Position::at(-650, 3600);
    assert!(scroll_obstacle(&mut q, &bg, &bottom, 2));
    assert_eq!(q.position, Vec2::new(SPAWN_X, PARKED_Y));
    let mut r = Position::at(-600, 3600);
    assert!(!scroll_obstacle(&mut r, &bg, &bottom, 2));
    assert_eq!(r.position.x, -640);
}

#[test]
fn obstacle_pair_recycled_in_one_commit() {
    let mut world = World::new();
    world.create(obstacle(-650, 3600, false));
    world.create(obstacle(-650, -1200, true));
    let mut sim = Simulation::new(world);
    sim.update(0, &vec![0, 0]);
    let es = &sim.world.entities;
    assert_eq!(es.len(), 2);
    assert_eq!(es[0].id, 2);
    assert_eq!(es[1].id, 3);
    let a = es[0].parts.position.unwrap();
    let b = es[1].parts.position.unwrap();
    assert_eq!((a.position.x, a.position.y), (SPAWN_X, -2400));
    assert_eq!((b.position.x, b.position.y), (SPAWN_X, 2400));
    assert!(es[0].parts.obstacle.unwrap().top);
    assert!(!es[1].parts.obstacle.unwrap().top);
    assert_eq!(es[1].parts.image, Some(Image::new(0)));
    assert!(sim.world.pending_create.is_empty());
    assert!(sim.world.pending_destroy.is_empty());
    assert_eq!(sim.world.next_id, 4);
}

#[test]
fn player_box_overlapping_obstacle() {
    let p = CollisionBox { origin: Vec2::new(1000, 2000), width: 580, height: 720 };
    let o = CollisionBox { origin: Vec2::new(1300, 1800), width: 640, height: 2400 };
    assert!(boxes_overlap(&p, &o));
    assert!(boxes_overlap(&o, &p));
}

#[test]
fn collision_ends_the_round() {
    let mut world = World::new();
    world.create(player(1000, 2000));
    world.create(obstacle(1300, 1800, false));
    let mut game = Game::new();
    world.run_collision(&mut game);
    assert!(!game.playing);
    assert_eq!(game.score, 0);
}

#[test]
fn touching_edges_do_not_overlap() {
    let p = CollisionBox { origin: Vec2::new(1000, 2000), width: 580, height: 720 };
    let right = CollisionBox { origin: Vec2::new(1580, 2000), width: 640, height: 720 };
    let below = CollisionBox { origin: Vec2::new(1000, 2720), width: 580, height: 100 };
    assert!(!boxes_overlap(&p, &right));
    assert!(!boxes_overlap(&right, &p));
    assert!(!boxes_overlap(&p, &below));
    assert!(!boxes_overlap(&below, &p));
}

#[test]
fn no_collision_keeps_playing() {
    let mut world = World::new();
    world.create(player(1000, 2000));
    world.create(obstacle(5000, 1800, false));
    let mut game = Game::new();
    world.run_collision(&mut game);
    assert!(game.playing);
}

#[test]
fn animation_cycles_back_to_first_frame() {
    let mut a = Animation::new(4, vec![Image::new(1), Image::new(2), Image::new(3), Image::new(4)]);
    let mut seen = Vec::new();
    for _ in 0..4 {
        advance(&mut a);
        seen.push(a.current_frame);
        assert!(a.current_frame < a.max);
    }
    assert_eq!(seen, vec![1, 2, 3, 0]);
}

#[test]
fn score_counts_ticks_while_playing() {
    let mut sim = new_round(images());
    for t in 1..=30 {
        let n = sim.world.entities.len();
        sim.update(1, &vec![0; n]);
        assert!(sim.game.playing);
        assert_eq!(sim.game.score, t);
    }
}

#[test]
fn ticks_after_game_over_change_nothing() {
    let mut sim = new_round(images());
    sim.game.playing = false;
    sim.game.score = 17;
    let before: Vec<(u64, Option<Position>, Option<CollisionBox>)> = sim
        .world
        .entities
        .iter()
        .map(|e| (e.id, e.parts.position, e.parts.collision))
        .collect();
    sim.key_down_event(Key::Space, false);
    sim.key_up_event(Key::Space);
    for _ in 0..5 {
        sim.update(3, &vec![1; 18]);
    }
    let after: Vec<(u64, Option<Position>, Option<CollisionBox>)> = sim
        .world
        .entities
        .iter()
        .map(|e| (e.id, e.parts.position, e.parts.collision))
        .collect();
    assert_eq!(before, after);
    assert_eq!(sim.game, Game { playing: false, score: 17 });
    assert_eq!(sim.world.entities[17].parts.animation.as_ref().unwrap().current_frame, 0);
}

#[test]
fn tick_runs_animation_then_movement_then_collision() {
    let mut sim = new_round(images());
    sim.update(2, &vec![0; 18]);
    let p = &sim.world.entities[17].parts;
    assert_eq!(p.animation.as_ref().unwrap().current_frame, 2);
    assert_eq!(p.position.unwrap().position.y, 2003);
    assert_eq!(p.collision.unwrap().origin, Vec2::new(1000, 2003));
    let tile = sim.world.entities[0].parts.position.unwrap();
    assert_eq!(tile.position.x, -20);
    let floor = sim.world.entities[6].parts.position.unwrap();
    assert_eq!(floor.position.x, -40);
}

#[test]
fn round_layout() {
    let sim = new_round(images());
    let es = &sim.world.entities;
    assert_eq!(es.len(), 18);
    assert!(is_world_bounded(&sim.world));
    assert!(sim.can_tick());
    let bg = es[4].parts.background.unwrap();
    assert_eq!((bg.velocity, bg.width, bg.num_copies), (30, 7600, 3));
    assert_eq!(es[4].parts.position.unwrap().position.x, 7600);
    assert_eq!(es[10].parts.position.unwrap().position, Vec2::new(12800, 5200));
    assert_eq!(es[12].parts.position.unwrap().position, Vec2::new(12400, 3600));
    assert_eq!(es[15].parts.position.unwrap().position, Vec2::new(12400, -1200));
    assert!(es[15].parts.obstacle.unwrap().top);
    assert_eq!(es[17].parts.collision.unwrap().width, 580);
    assert_eq!(sim.game, Game { playing: true, score: 0 });
}

#[test]
fn jump_needs_release_between_presses() {
    let mut sim = new_round(images());
    assert!(!sim.key_down_event(Key::Space, false));
    assert_eq!(sim.input, Direction { jump: true, release: false });
    sim.update(0, &vec![0; 18]);
    assert_eq!(sim.world.entities[17].parts.position.unwrap().speed.y, 3);
    sim.key_up_event(Key::Space);
    assert_eq!(sim.input, Direction { jump: true, release: true });
    sim.update(0, &vec![0; 18]);
    assert_eq!(sim.world.entities[17].parts.position.unwrap().speed.y, -97);
    assert!(!sim.input.jump);
    assert!(sim.player_input.jump);
}

#[test]
fn escape_quits_and_repeats_are_ignored() {
    let mut sim = new_round(images());
    assert!(sim.key_down_event(Key::Escape, false));
    assert!(!sim.key_down_event(Key::Escape, true));
    assert!(!sim.key_down_event(Key::Space, true));
    assert_eq!(sim.player_input, Direction::new());
    assert!(!sim.key_down_event(Key::Other, false));
}

#[test]
fn random_draws_cover_the_listed_layouts() {
    let draws = draw_gap_choices(300);
    assert_eq!(draws.len(), 300);
    assert!(draws.iter().all(|d| *d < 3));
    assert!(draws.iter().any(|d| *d != draws[0]));
}

#[test]
fn random_tick_counts_score() {
    let mut sim = new_round(images());
    for _ in 0..400 {
        if !sim.game.playing {
            break;
        }
        let before = sim.game.score;
        assert!(sim.can_tick());
        sim.update_random(1);
        assert_eq!(sim.game.score, before + 1);
    }
}

#[test]
fn deferred_mutations_apply_at_commit() {
    let mut world = World::new();
    let a = world.create(Components::empty());
    let b = world.create(Components::empty());
    world.defer_destroy(a);
    world.defer_create(Components::empty());
    assert_eq!(world.entities.len(), 2);
    world.maintain();
    let ids: Vec<u64> = world.entities.iter().map(|e| e.id).collect();
    assert_eq!(ids, vec![b, 2]);
    assert_eq!(world.next_id, 3);
}

#[test]
fn machine_limits_are_reported() {
    let mut sim = new_round(images());
    sim.game.score = i64::MAX;
    assert!(!sim.can_tick());
    let mut sim = new_round(images());
    sim.world.entities[3].parts.position = Some(Position::at(2_000_000_000_000, 0));
    assert!(!is_world_bounded(&sim.world));
    assert!(!sim.can_tick());
    let mut sim = new_round(images());
    sim.world.entities[0].parts.background =
        Some(BackgroundTag { velocity: 20, width: 1_000_000_000, num_copies: 2000 });
    assert!(!is_world_bounded(&sim.world));
}

#[test]
fn animation_may_continue_after_game_over() {
    let mut sim = new_round(images());
    sim.game.playing = false;
    sim.animate_when_over = true;
    let before = sim.world.entities[17].parts.position;
    sim.update(2, &vec![0; 18]);
    assert_eq!(sim.world.entities[17].parts.animation.as_ref().unwrap().current_frame, 2);
    assert_eq!(sim.world.entities[17].parts.position, before);
    assert_eq!(sim.game, Game { playing: false, score: 0 });
}
