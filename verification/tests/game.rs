use not_pong::bomb::Bomb;
use not_pong::constants::{
    ALPHA_CHANGE, HIT_COOLDOWN, RESOLUTION_X, RESOLUTION_Y, SPRINT_ALPHA_CHANGE, SPRINT_COOLDOWN,
};
use not_pong::explosion::{Paint, Particle};
use not_pong::fixed::UNIT;
use not_pong::frame::FrameInfo;
use not_pong::game::{Cue, GameError, Input, NotPong};
use not_pong::obstacle::rock::Rock;
use not_pong::obstacle::rocket::{Base, Rocket};
use not_pong::obstacle::{AnyObstacle, Obstacle};
use not_pong::pad::Pad;
use not_pong::utils::{vec2, Rectangle};

const NO_INPUT: Input = Input { jump: false, sprint_pressed: false, sprint_held: false, sprint_released: false };
const JUMP: Input = Input { jump: true, sprint_pressed: false, sprint_held: false, sprint_released: false };
const SPRINT: Input = Input { jump: false, sprint_pressed: true, sprint_held: false, sprint_released: false };
const RELEASE: Input = Input { jump: false, sprint_pressed: false, sprint_held: false, sprint_released: true };

fn playing() -> NotPong {
    let mut game = NotPong::new();
    game.player.playing = true;
    game.player.pos = vec2(160 * UNIT, 90 * UNIT);
    game.player.velocity = vec2(12_500, 0);
    game
}

fn rock_at(game: &mut NotPong, x: i64, y: i64, side: i64) -> Rock {
    let mut rng = rand::rng();
    let (id, _) = game.obstacle_grid.allocate(vec2(0, 0), &mut rng).unwrap();
    Rock::with_shape(id, vec2(x + side, y + side), side, 500 * UNIT)
}

#[test]
fn new_game_is_idle_and_empty() {
    let game = NotPong::new();
    assert!(!game.player.playing);
    assert_eq!(game.left_pad, Pad::default(true));
    assert_eq!(game.right_pad, Pad::default(false));
    assert!(game.obstacles.is_empty());
    assert!(game.bomb.is_none());
    assert_eq!(game.obstacle_grid.free_len(), 44);
    assert_eq!(game.obstacle_grid.active_len(), 0);
    assert_eq!(game.difficulty, 0);
    assert_eq!(game.sprint_amount, 0);
    assert_eq!(game.alpha_change, ALPHA_CHANGE);
    assert_eq!(game.sprint_cooldown, SPRINT_COOLDOWN);
    assert_eq!(game.hit_cooldown, HIT_COOLDOWN);
    assert_eq!(game.frame_n, 0);
    assert_eq!(game.curr_rocket_id, 0);
}

#[test]
fn background_wash_scales_with_the_frame() {
    let mut game = NotPong::new();
    assert_eq!(game.get_alpha_change(UNIT), 100);
    assert_eq!(game.get_alpha_change(UNIT / 2), 50);
    assert_eq!(game.get_alpha_change(3 * UNIT), 255);
    assert_eq!(game.get_alpha_change(15_555), 155);
    game.alpha_change = SPRINT_ALPHA_CHANGE;
    assert_eq!(game.get_alpha_change(UNIT), 40);
}

#[test]
fn jump_input_starts_the_game() {
    let mut game = NotPong::new();
    game.handle_keys(NO_INPUT);
    assert!(!game.player.playing);
    game.handle_keys(JUMP);
    assert!(game.player.playing);
    assert_eq!(game.player.velocity.y, -25_000);
}

#[test]
fn sprint_needs_a_game_charge_and_cooldown() {
    // no game: the sprint is ignored, and the jump with it
    let mut game = NotPong::new();
    game.sprint_amount = 100 * UNIT;
    game.handle_keys(Input { jump: true, ..SPRINT });
    assert!(!game.player.sprinting && !game.player.playing);
    // no charge
    let mut game = playing();
    game.handle_keys(SPRINT);
    assert!(!game.player.sprinting);
    // cooldown not over
    game.sprint_amount = 100 * UNIT;
    game.sprint_cooldown = SPRINT_COOLDOWN - 1;
    game.handle_keys(SPRINT);
    assert!(!game.player.sprinting);
    // all there
    game.sprint_cooldown = SPRINT_COOLDOWN;
    game.player.velocity = vec2(12_500, 9_000);
    game.handle_keys(SPRINT);
    assert!(game.player.sprinting);
    assert_eq!(game.player.velocity, vec2(12_500, 0));
    assert_eq!(game.sprint_cooldown, 0);
    assert_eq!(game.alpha_change, SPRINT_ALPHA_CHANGE);
    // a sprinting player does not jump
    game.handle_keys(JUMP);
    assert_eq!(game.player.velocity, vec2(12_500, 0));
    // a held touch keeps the sprint
    game.handle_keys(Input { sprint_held: true, ..RELEASE });
    assert!(game.player.sprinting);
    game.handle_keys(RELEASE);
    assert!(!game.player.sprinting);
    assert_eq!(game.alpha_change, ALPHA_CHANGE);
}

#[test]
fn bursting_player_does_not_listen() {
    let mut game = NotPong::new();
    game.player.explosion.particles.push(Particle::with_velocity(vec2(UNIT, UNIT), vec2(0, 0), Paint::Foreground));
    game.handle_keys(JUMP);
    assert!(!game.player.playing);
}

#[test]
fn pad_deflect_fires_once_within_the_cooldown() {
    let mut game = playing();
    // at the contact edge of the right pad, inside its height, flying right
    game.player.pos = vec2(302 * UNIT, 85 * UNIT);
    game.player.velocity = vec2(12_500, 3_000);
    let info = FrameInfo::new(UNIT);
    let mut cues = Vec::new();
    game.advance_pads(info, &mut cues);
    assert_eq!(cues, vec![Cue::Hit]);
    assert_eq!(game.player.count, 1);
    assert_eq!(game.player.velocity, vec2(-12_500, 3_000));
    assert_eq!(game.hit_cooldown, 0);
    // the pad has scheduled its relocation
    assert_eq!(game.right_pad.cnt, 0);
    // a second contact within the cooldown does not count
    game.recharge(UNIT);
    game.right_pad = Pad::default(false);
    let mut cues = Vec::new();
    game.advance_pads(info, &mut cues);
    assert!(cues.is_empty());
    assert_eq!(game.player.count, 1);
    assert_eq!(game.player.velocity, vec2(-12_500, 3_000));
    assert_eq!(game.hit_cooldown, UNIT);
    // once the cooldown is over it counts again
    for _ in 0..4 {
        game.recharge(UNIT);
    }
    assert_eq!(game.hit_cooldown, HIT_COOLDOWN);
    game.right_pad = Pad::default(false);
    let mut cues = Vec::new();
    game.advance_pads(info, &mut cues);
    assert_eq!(cues, vec![Cue::Hit]);
    assert_eq!(game.player.count, 2);
    assert_eq!(game.player.velocity, vec2(12_500, 3_000));
}

#[test]
fn invert_respects_the_cooldown() {
    let mut game = playing();
    assert!(game.invert());
    assert_eq!(game.player.count, 1);
    assert_eq!(game.player.velocity.x, -12_500);
    assert!(!game.invert());
    assert_eq!(game.player.count, 1);
    assert_eq!(game.player.velocity.x, -12_500);
}

#[test]
fn pads_advance_even_without_a_hit() {
    let mut game = playing();
    game.left_pad.move_to(775_000 + 20 * UNIT);
    let mut cues = Vec::new();
    game.advance_pads(FrameInfo::new(UNIT), &mut cues);
    assert!(cues.is_empty());
    assert_eq!(game.left_pad.pos.y, 775_000 + UNIT);
    assert_eq!(game.player.count, 0);
}

#[test]
fn sprint_charge_fills_drains_and_ends_the_sprint() {
    let mut game = playing();
    game.recharge(UNIT);
    assert_eq!(game.sprint_amount, UNIT);
    assert_eq!(game.sprint_cooldown, SPRINT_COOLDOWN + UNIT);
    assert_eq!(game.hit_cooldown, HIT_COOLDOWN + UNIT);
    game.sprint_amount = 900 * UNIT - 1;
    game.recharge(UNIT);
    assert_eq!(game.sprint_amount, 900 * UNIT);
    game.recharge(UNIT);
    assert_eq!(game.sprint_amount, 900 * UNIT);
    game.player.sprinting = true;
    game.alpha_change = SPRINT_ALPHA_CHANGE;
    game.sprint_amount = 15 * UNIT;
    game.recharge(UNIT);
    assert_eq!(game.sprint_amount, 5 * UNIT);
    game.recharge(UNIT);
    assert_eq!(game.sprint_amount, -5 * UNIT);
    assert!(game.player.sprinting);
    game.recharge(UNIT);
    assert!(!game.player.sprinting);
    assert_eq!(game.alpha_change, ALPHA_CHANGE);
    assert_eq!(game.sprint_amount, -5 * UNIT);
    game.recharge(2 * UNIT);
    assert_eq!(game.sprint_amount, -3 * UNIT);
}

#[test]
fn difficulty_rises_once_per_score_step() {
    let mut game = playing();
    game.player.count = 9;
    game.raise_difficulty();
    assert_eq!(game.difficulty, 0);
    game.player.count = 10;
    game.raise_difficulty();
    assert_eq!((game.difficulty, game.last_player_count), (1, 10));
    game.raise_difficulty();
    assert_eq!(game.difficulty, 1);
    game.player.count = 12;
    game.raise_difficulty();
    assert_eq!(game.difficulty, 1);
    game.player.count = 15;
    game.raise_difficulty();
    assert_eq!((game.difficulty, game.last_player_count), (2, 15));
    game.player.count = 5;
    game.last_player_count = 0;
    game.raise_difficulty();
    assert_eq!(game.difficulty, 2);
}

#[test]
fn bomb_without_hazards_awards_points() {
    let mut game = playing();
    game.player.count = 30;
    game.player.pos = vec2(100 * UNIT, 50 * UNIT);
    // the pickup on the player, a projectile around, but no static hazard
    game.bomb = Some(Bomb::new(vec2(100 * UNIT, 50 * UNIT)));
    game.obstacles.push(AnyObstacle::Rocket(Rocket::with_shape(0, vec2(0, 30 * UNIT), Base::Left, 5 * UNIT, 2 * UNIT)));
    let info = FrameInfo::new(UNIT);
    let mut cues = Vec::new();
    game.advance_bomb(info, true, &mut cues);
    assert_eq!(cues, vec![Cue::Bomb]);
    let bomb = game.bomb.as_ref().unwrap();
    let points = bomb.give_points;
    assert!(points >= 1 && points <= 4);
    assert_eq!(
        bomb.to_destroy,
        vec![Rectangle { x: 159 * UNIT, y: 89 * UNIT, width: 2 * UNIT, height: 2 * UNIT }]
    );
    assert_eq!(game.player.count, 30);
    // the pickup heads for the centre box; when its queue is drained it ends
    let mut frames = 0;
    while game.bomb.as_ref().unwrap().is_alive() {
        let mut cues = Vec::new();
        game.advance_bomb(info, true, &mut cues);
        assert!(cues.is_empty());
        frames += 1;
        assert!(frames < 1000);
    }
    assert!(game.bomb.as_ref().unwrap().to_destroy.is_empty());
    assert_eq!(game.player.count, 30);
    assert_eq!(game.obstacles.len(), 1);
    // the next frame takes it away: the points are scored and a burst is left
    let at = game.bomb.as_ref().unwrap().pos;
    let mut cues = Vec::new();
    game.advance_bomb(info, false, &mut cues);
    assert_eq!(cues, vec![Cue::Pew]);
    assert!(game.bomb.is_none());
    assert_eq!(game.player.count, 30 + points);
    assert_eq!(game.obstacles.len(), 2);
    match &game.obstacles[1] {
        AnyObstacle::ObstacleExplosion(burst) => {
            assert_eq!(burst.0.pos, at);
            assert!(burst.0.is_alive());
            assert!(burst.0.particles.iter().all(|p| matches!(p.paint, Paint::Hue(_))));
        }
        _ => panic!("a burst was expected"),
    }
}

#[test]
fn bomb_goes_after_at_most_four_hazards() {
    for _ in 0..30 {
        let mut game = playing();
        let mut boxes = Vec::new();
        for k in 0..6 {
            let rock = rock_at(&mut game, (20 + 10 * k) * UNIT, 20 * UNIT, 5 * UNIT);
            boxes.push(Rectangle { x: rock.pos.x, y: rock.pos.y, width: 5 * UNIT, height: 5 * UNIT });
            game.obstacles.push(AnyObstacle::Rock(rock));
        }
        game.bomb = Some(Bomb::new(vec2(160 * UNIT, 90 * UNIT)));
        let mut cues = Vec::new();
        game.advance_bomb(FrameInfo::new(UNIT), false, &mut cues);
        assert_eq!(cues, vec![Cue::Bomb]);
        let bomb = game.bomb.as_ref().unwrap();
        assert_eq!(bomb.give_points, 0);
        let n = bomb.to_destroy.len();
        assert!(n >= 1 && n <= 4);
        for (i, target) in bomb.to_destroy.iter().enumerate() {
            assert!(boxes.contains(target));
            assert!(!bomb.to_destroy[..i].contains(target));
        }
    }
}

#[test]
fn bomb_with_fewer_hazards_takes_them_all_or_fewer() {
    let mut game = playing();
    let rock = rock_at(&mut game, 20 * UNIT, 20 * UNIT, 5 * UNIT);
    game.obstacles.push(AnyObstacle::Rock(rock));
    game.bomb = Some(Bomb::new(vec2(160 * UNIT, 90 * UNIT)));
    let mut cues = Vec::new();
    game.advance_bomb(FrameInfo::new(UNIT), false, &mut cues);
    let bomb = game.bomb.as_ref().unwrap();
    assert_eq!(bomb.give_points, 0);
    assert_eq!(
        bomb.to_destroy,
        vec![Rectangle { x: 20 * UNIT, y: 20 * UNIT, width: 5 * UNIT, height: 5 * UNIT }]
    );
}

#[test]
fn untouched_bomb_expires_without_points() {
    let mut game = playing();
    game.player.count = 30;
    let mut bomb = Bomb::new(vec2(30 * UNIT, 30 * UNIT));
    bomb.lifetime = UNIT;
    game.bomb = Some(bomb);
    let mut cues = Vec::new();
    game.advance_bomb(FrameInfo::new(UNIT), false, &mut cues);
    assert!(game.bomb.is_some());
    game.advance_bomb(FrameInfo::new(UNIT), false, &mut cues);
    assert!(game.bomb.is_none());
    assert!(cues.is_empty());
    assert_eq!(game.player.count, 30);
    assert!(game.obstacles.is_empty());
}

#[test]
fn bomb_appears_only_when_due() {
    let mut game = playing();
    game.player.count = 19;
    for _ in 0..2000 {
        let mut cues = Vec::new();
        game.advance_bomb(FrameInfo::new(UNIT), true, &mut cues);
        assert!(game.bomb.is_none());
    }
    game.player.count = 20;
    for _ in 0..2000 {
        let mut cues = Vec::new();
        game.advance_bomb(FrameInfo::new(UNIT), false, &mut cues);
        assert!(game.bomb.is_none());
    }
    let mut frames = 0;
    while game.bomb.is_none() {
        let mut cues = Vec::new();
        game.advance_bomb(FrameInfo::new(UNIT), true, &mut cues);
        assert!(cues.is_empty());
        frames += 1;
        assert!(frames < 200_000);
    }
    let bomb = game.bomb.as_ref().unwrap();
    assert!(bomb.pos.x >= 67 * UNIT && bomb.pos.x <= 247 * UNIT);
    assert!(bomb.pos.y >= 17 * UNIT && bomb.pos.y <= 157 * UNIT);
    assert!(bomb.to_destroy.is_empty());
}

#[test]
fn new_rocket_enters_at_an_edge_beside_the_pad() {
    let mut game = playing();
    for expected in 0..300u16 {
        let rocket = game.new_rocket();
        assert_eq!(rocket.id, expected);
        match rocket.base {
            Base::Left | Base::Right => {
                let pad = if rocket.base == Base::Left { game.left_pad } else { game.right_pad };
                assert_eq!(rocket.pos.x, if rocket.base == Base::Left { 0 } else { RESOLUTION_X });
                let above = rocket.pos.y >= 20 * UNIT && rocket.pos.y <= pad.pos.y;
                let below = rocket.pos.y >= pad.pos.y + 25 * UNIT && rocket.pos.y <= 160 * UNIT;
                assert!(above || below);
            }
            Base::Top | Base::Bottom => {
                assert_eq!(rocket.pos.y, if rocket.base == Base::Top { 0 } else { RESOLUTION_Y });
                assert!(rocket.pos.x >= 70 * UNIT && rocket.pos.x <= 250 * UNIT);
            }
        }
    }
    assert_eq!(game.curr_rocket_id, 300);
}

#[test]
fn rocket_enters_above_a_pad_that_left_the_safe_zone() {
    let mut game = playing();
    game.left_pad.pos.y = 150 * UNIT;
    game.right_pad.pos.y = 150 * UNIT;
    for _ in 0..200 {
        let rocket = game.new_rocket();
        if rocket.base == Base::Left || rocket.base == Base::Right {
            assert!(rocket.pos.y >= 20 * UNIT && rocket.pos.y <= 150 * UNIT);
        }
    }
}

#[test]
fn make_rocket_appends_and_asks_for_the_sound() {
    let mut game = playing();
    game.curr_rocket_id = u16::MAX;
    let mut cues = vec![Cue::Hit];
    game.make_rocket(&mut cues);
    assert_eq!(cues, vec![Cue::Hit, Cue::RocketLaunched { id: u16::MAX }]);
    assert_eq!(game.curr_rocket_id, 0);
    assert!(matches!(&game.obstacles[0], AnyObstacle::Rocket(r) if r.id == u16::MAX));
}

#[test]
fn nothing_spawns_before_the_score_or_the_tick_is_due() {
    let mut game = playing();
    game.difficulty = 1000;
    game.player.count = 9;
    let mut cues = Vec::new();
    for _ in 0..200 {
        game.spawn_obstacles(true, &mut cues);
    }
    game.player.count = 10;
    for _ in 0..200 {
        game.spawn_obstacles(false, &mut cues);
    }
    game.difficulty = 0;
    for _ in 0..200 {
        game.spawn_obstacles(true, &mut cues);
    }
    assert!(game.obstacles.is_empty());
    assert!(cues.is_empty());
}

#[test]
fn the_draw_against_the_difficulty_decides_whether_an_obstacle_appears() {
    let mut game = playing();
    game.player.count = 10;
    game.difficulty = 5;
    let mut cues = Vec::new();
    // a draw at the difficulty or above lets nothing appear
    game.spawn_drawn(true, true, 5, &mut cues);
    game.spawn_drawn(true, false, 1000, &mut cues);
    // nor does any draw before the score is reached or while the logic is not due
    game.spawn_drawn(false, true, 0, &mut cues);
    game.player.count = 9;
    game.spawn_drawn(true, false, 0, &mut cues);
    assert!(game.obstacles.is_empty());
    assert!(cues.is_empty());
    assert_eq!(game.obstacle_grid.free_len(), 44);
    assert_eq!(game.curr_rocket_id, 0);
    // a draw below the difficulty lets what the coin asks for appear
    game.player.count = 10;
    game.spawn_drawn(true, true, 4, &mut cues);
    assert_eq!(game.obstacles.len(), 1);
    assert!(matches!(&game.obstacles[0], AnyObstacle::Rock(r) if r.id == 0));
    assert_eq!(game.obstacle_grid.active_len(), 1);
    assert!(cues.is_empty());
    game.spawn_drawn(true, false, 0, &mut cues);
    assert_eq!(game.obstacles.len(), 2);
    assert!(matches!(&game.obstacles[1], AnyObstacle::Rocket(r) if r.id == 0));
    assert_eq!(cues, vec![Cue::RocketLaunched { id: 0 }]);
    assert_eq!(game.obstacle_grid.active_len(), 1);
    assert_eq!(game.curr_rocket_id, 1);
}

#[test]
fn a_hazard_without_a_slot_becomes_a_projectile() {
    let mut game = playing();
    game.player.count = 10;
    game.difficulty = 1;
    let mut cues = Vec::new();
    for _ in 0..44 {
        game.spawn_drawn(true, true, 0, &mut cues);
    }
    assert_eq!(game.obstacle_grid.free_len(), 0);
    assert!(game.obstacles.iter().all(|o| matches!(o, AnyObstacle::Rock(_))));
    assert!(cues.is_empty());
    game.spawn_drawn(true, true, 0, &mut cues);
    assert_eq!(game.obstacles.len(), 45);
    assert!(matches!(&game.obstacles[44], AnyObstacle::Rocket(r) if r.id == 0));
    assert_eq!(cues, vec![Cue::RocketLaunched { id: 0 }]);
    assert_eq!(game.obstacle_grid.active_len(), 44);
    // so it is where the only free place lies in the player's cell
    let mut game = playing();
    game.player.count = 10;
    game.difficulty = 1;
    game.player.pos = vec2(100 * UNIT, 52 * UNIT);
    let mut cues = Vec::new();
    for _ in 0..43 {
        game.spawn_drawn(true, true, 0, &mut cues);
    }
    assert_eq!(game.obstacle_grid.free_len(), 1);
    assert!(cues.is_empty());
    game.spawn_drawn(true, true, 0, &mut cues);
    assert!(matches!(&game.obstacles[43], AnyObstacle::Rocket(_)));
    assert_eq!(game.obstacle_grid.free_len(), 1);
    assert_eq!(game.obstacle_grid.active_len(), 43);
}

#[test]
fn spawning_takes_slots_for_hazards_and_launches_rockets() {
    let mut game = playing();
    game.player.count = 10;
    game.difficulty = 1001;
    let mut cues = Vec::new();
    for _ in 0..300 {
        let before = game.obstacles.len();
        game.spawn_obstacles(true, &mut cues);
        assert_eq!(game.obstacles.len(), before + 1);
    }
    let mut rocks = 0;
    let mut rockets = 0;
    let mut ids = Vec::new();
    for obstacle in game.obstacles.iter() {
        match obstacle {
            AnyObstacle::Rock(rock) => {
                rocks += 1;
                assert!(!ids.contains(&rock.id));
                ids.push(rock.id);
                let base = game.obstacle_grid.position(rock.id).unwrap();
                // the hazard's far corner lies within the variance of its slot
                assert!((rock.pos.x + rock.size.x - base.x).abs() <= 6 * UNIT);
                assert!((rock.pos.y + rock.size.y - base.y).abs() <= 6 * UNIT);
            }
            AnyObstacle::Rocket(_) => rockets += 1,
            _ => panic!("no burst was expected"),
        }
    }
    // the grid is used up, and every hazard beyond it became a projectile
    assert_eq!(rocks, 44);
    assert_eq!(rockets, 256);
    assert_eq!(game.obstacle_grid.free_len(), 0);
    assert_eq!(cues.len(), 256);
    assert!(cues.iter().all(|c| matches!(c, Cue::RocketLaunched { .. })));
}

#[test]
fn obstacle_that_touches_the_player_marks_it_dead_and_halts_the_turn() {
    let mut game = playing();
    let first = Rocket::with_shape(0, vec2(0, 10 * UNIT), Base::Left, 5 * UNIT, 2 * UNIT);
    // after its move the hazard spans 158..168 by 88..98 and holds the player's corner
    let on_player = rock_at(&mut game, 158 * UNIT, 88 * UNIT, 10 * UNIT);
    let last = Rocket::with_shape(1, vec2(0, 150 * UNIT), Base::Left, 5 * UNIT, 2 * UNIT);
    game.obstacles.push(AnyObstacle::Rocket(first));
    game.obstacles.push(AnyObstacle::Rock(on_player));
    game.obstacles.push(AnyObstacle::Rocket(last));
    let mut cues = Vec::new();
    game.advance_obstacles(FrameInfo::new(UNIT), &mut cues);
    assert!(game.player.dead);
    assert_eq!(cues, vec![Cue::RocketPan { id: 0, x: 2 * UNIT }]);
    assert_eq!(game.obstacles.len(), 3);
    assert_eq!(game.obstacles[0].pos(), vec2(2 * UNIT, 10 * UNIT));
    // the hazard has moved, the projectile behind it has not
    assert!(matches!(&game.obstacles[1], AnyObstacle::Rock(r) if r.alpha == 35));
    assert_eq!(game.obstacles[2].pos(), vec2(0, 150 * UNIT));
}

#[test]
fn obstacle_that_touches_the_bomb_bursts() {
    let mut game = playing();
    game.player.pos = vec2(10 * UNIT, 10 * UNIT);
    game.bomb = Some(Bomb::new(vec2(103 * UNIT, 53 * UNIT)));
    // the hazard spans 95..105 by 45..55 and holds the pickup's corner at 100, 50
    let rock = rock_at(&mut game, 95 * UNIT, 45 * UNIT, 10 * UNIT);
    game.obstacles.push(AnyObstacle::Rock(rock));
    let mut cues = Vec::new();
    game.advance_obstacles(FrameInfo::new(UNIT), &mut cues);
    assert_eq!(cues, vec![Cue::Pew]);
    assert!(!game.player.dead);
    assert_eq!(game.obstacles.len(), 2);
    assert!(!game.obstacles[0].is_alive());
    match &game.obstacles[1] {
        AnyObstacle::ObstacleExplosion(burst) => assert_eq!(burst.0.pos, vec2(95 * UNIT, 45 * UNIT)),
        _ => panic!("a burst was expected"),
    }
}

#[test]
fn clashing_obstacles_kill_each_other_once() {
    let mut game = playing();
    game.player.pos = vec2(10 * UNIT, 150 * UNIT);
    // the hazard spans 100..110 by 50..60; the projectile arrives at 104, 52 after its move
    let rock = rock_at(&mut game, 100 * UNIT, 50 * UNIT, 10 * UNIT);
    let rocket = Rocket::with_shape(7, vec2(102 * UNIT, 52 * UNIT), Base::Left, 4 * UNIT, 2 * UNIT);
    let far = Rocket::with_shape(8, vec2(200 * UNIT, 150 * UNIT), Base::Right, 4 * UNIT, 2 * UNIT);
    game.obstacles.push(AnyObstacle::Rock(rock));
    game.obstacles.push(AnyObstacle::Rocket(rocket));
    game.obstacles.push(AnyObstacle::Rocket(far));
    let mut cues = Vec::new();
    game.advance_obstacles(FrameInfo::new(UNIT), &mut cues);
    assert_eq!(
        cues,
        vec![Cue::RocketPan { id: 7, x: 104 * UNIT }, Cue::RocketPan { id: 8, x: 198 * UNIT }]
    );
    assert_eq!(game.obstacles.len(), 4);
    assert!(!game.obstacles[0].is_alive());
    assert!(!game.obstacles[1].is_alive());
    assert!(game.obstacles[2].is_alive());
    // one burst, at the place of the earlier obstacle of the pair
    match &game.obstacles[3] {
        AnyObstacle::ObstacleExplosion(burst) => assert_eq!(burst.0.pos, vec2(100 * UNIT, 50 * UNIT)),
        _ => panic!("a burst was expected"),
    }
    assert!(!game.player.dead);
}

#[test]
fn the_earlier_obstacle_must_see_the_later_one() {
    let mut game = playing();
    game.player.pos = vec2(10 * UNIT, 150 * UNIT);
    // the small projectile comes first and lies inside the hazard: it sees no edge of it
    let rocket = Rocket::with_shape(7, vec2(102 * UNIT, 52 * UNIT), Base::Left, 4 * UNIT, 2 * UNIT);
    let rock = rock_at(&mut game, 100 * UNIT, 50 * UNIT, 10 * UNIT);
    game.obstacles.push(AnyObstacle::Rocket(rocket));
    game.obstacles.push(AnyObstacle::Rock(rock));
    let mut cues = Vec::new();
    game.advance_obstacles(FrameInfo::new(UNIT), &mut cues);
    assert_eq!(game.obstacles.len(), 2);
    assert!(game.obstacles[0].is_alive());
    assert!(game.obstacles[1].is_alive());
}

#[test]
fn retirement_frees_slots_and_stops_rocket_sounds() {
    let mut game = playing();
    let keep = rock_at(&mut game, 100 * UNIT, 50 * UNIT, 10 * UNIT);
    let mut gone = rock_at(&mut game, 20 * UNIT, 50 * UNIT, 10 * UNIT);
    gone.kill();
    let mut dead_rocket = Rocket::with_shape(5, vec2(10 * UNIT, 10 * UNIT), Base::Left, 4 * UNIT, 2 * UNIT);
    dead_rocket.kill();
    let out_rocket = Rocket::with_shape(6, vec2(RESOLUTION_X, 10 * UNIT), Base::Left, 4 * UNIT, 2 * UNIT);
    let live_rocket = Rocket::with_shape(9, vec2(10 * UNIT, 10 * UNIT), Base::Left, 4 * UNIT, 2 * UNIT);
    game.obstacles.push(AnyObstacle::Rock(gone));
    game.obstacles.push(AnyObstacle::Rocket(dead_rocket));
    game.obstacles.push(AnyObstacle::Rock(keep));
    game.obstacles.push(AnyObstacle::Rocket(out_rocket));
    game.obstacles.push(AnyObstacle::Rocket(live_rocket));
    assert_eq!(game.obstacle_grid.active_len(), 2);
    let mut cues = Vec::new();
    assert_eq!(game.retire_obstacles(&mut cues), Ok(()));
    assert_eq!(cues, vec![Cue::RocketStopped { id: 5 }, Cue::RocketStopped { id: 6 }]);
    assert_eq!(game.obstacles.len(), 2);
    assert!(matches!(&game.obstacles[0], AnyObstacle::Rock(r) if r.id == keep.id));
    assert!(matches!(&game.obstacles[1], AnyObstacle::Rocket(r) if r.id == 9));
    assert_eq!(game.obstacle_grid.active_len(), 1);
    assert_eq!(game.obstacle_grid.free_len(), 43);
    assert!(game.obstacle_grid.position(gone.id).is_none());
    assert!(game.obstacle_grid.position(keep.id).is_some());
}

#[test]
fn retiring_a_hazard_without_a_slot_is_a_double_free() {
    let mut game = playing();
    let mut stray = Rock::with_shape(77, vec2(100 * UNIT, 50 * UNIT), 5 * UNIT, UNIT);
    stray.kill();
    game.obstacles.push(AnyObstacle::Rock(stray));
    let mut cues = Vec::new();
    assert_eq!(game.retire_obstacles(&mut cues), Err(GameError::DoubleFree { id: 77 }));
    // two hazards on one slot: the second release fails
    let mut game = playing();
    let mut one = rock_at(&mut game, 100 * UNIT, 50 * UNIT, 5 * UNIT);
    one.kill();
    game.obstacles.push(AnyObstacle::Rock(one));
    game.obstacles.push(AnyObstacle::Rock(one));
    assert_eq!(game.retire_obstacles(&mut cues), Err(GameError::DoubleFree { id: one.id }));
    // in a frame the hazard moves before it is retired: let it fade out
    let mut game = playing();
    stray.lifespan = 0;
    game.obstacles.push(AnyObstacle::Rock(stray));
    assert_eq!(game.frame(NO_INPUT, UNIT, false), Err(GameError::DoubleFree { id: 77 }));
}

#[test]
fn death_restarts_the_game() {
    let mut game = playing();
    game.player.count = 12;
    game.difficulty = 3;
    game.sprint_amount = 50 * UNIT;
    game.frame_n = 41;
    let rock = rock_at(&mut game, 100 * UNIT, 50 * UNIT, 10 * UNIT);
    game.obstacles.push(AnyObstacle::Rock(rock));
    game.bomb = Some(Bomb::new(vec2(30 * UNIT, 30 * UNIT)));
    game.left_pad.pos.y = 30 * UNIT;
    game.player.pos = vec2(100 * UNIT, -UNIT);
    let cues = game.frame(NO_INPUT, UNIT, true).unwrap();
    assert_eq!(cues, vec![Cue::AllRocketsStopped, Cue::Death]);
    assert!(!game.player.playing);
    assert_eq!(game.player.count, 0);
    assert!(game.player.explosion.is_alive());
    assert_eq!(game.player.explosion.pos, vec2(100 * UNIT, 0));
    assert!(game.obstacles.is_empty());
    assert!(game.bomb.is_none());
    assert_eq!(game.obstacle_grid.free_len(), 44);
    assert_eq!(game.difficulty, 0);
    assert_eq!(game.sprint_amount, 0);
    assert_eq!(game.left_pad, Pad::default(true));
    assert_eq!(game.frame_n, 42);
    // while the burst lasts the player stands still and does not listen
    let cues = game.frame(JUMP, UNIT, true).unwrap();
    assert!(cues.is_empty());
    assert!(!game.player.playing);
    assert_eq!(game.player.pos, vec2(160 * UNIT, 90 * UNIT));
    let mut frames = 0;
    while game.player.explosion.is_alive() {
        game.frame(NO_INPUT, UNIT, true).unwrap();
        frames += 1;
        assert!(frames <= 85);
    }
    game.frame(JUMP, UNIT, true).unwrap();
    assert!(game.player.playing);
}

#[test]
fn idle_frames_only_move_the_player() {
    let mut game = NotPong::new();
    for n in 1..=600u64 {
        let cues = game.frame(NO_INPUT, UNIT, true).unwrap();
        assert!(cues.is_empty());
        assert!(!game.player.playing);
        assert_eq!(game.frame_n, n);
        assert_eq!(game.hit_cooldown, HIT_COOLDOWN);
        assert!(game.player.pos.x > 0 && game.player.pos.x < RESOLUTION_X - 5 * UNIT);
        assert!(game.player.pos.y > 0 && game.player.pos.y < RESOLUTION_Y - 5 * UNIT);
    }
}

#[test]
fn frame_counter_wraps() {
    let mut game = NotPong::new();
    game.frame_n = u64::MAX;
    game.frame(NO_INPUT, UNIT, false).unwrap();
    assert_eq!(game.frame_n, 0);
}

#[test]
fn a_played_frame_runs_every_stage() {
    let mut game = playing();
    game.player.pos = vec2(302 * UNIT, 85 * UNIT);
    game.player.velocity = vec2(12_500, 0);
    let dead = {
        let mut r = Rocket::with_shape(3, vec2(100 * UNIT, 10 * UNIT), Base::Top, 4 * UNIT, 2 * UNIT);
        r.kill();
        r
    };
    game.obstacles.push(AnyObstacle::Rocket(dead));
    let cues = game.frame(NO_INPUT, UNIT, false).unwrap();
    // a dead projectile still pans its sound until it is retired
    assert_eq!(
        cues,
        vec![Cue::Hit, Cue::RocketPan { id: 3, x: 100 * UNIT }, Cue::RocketStopped { id: 3 }]
    );
    assert_eq!(game.player.count, 1);
    assert!(game.obstacles.is_empty());
    assert_eq!(game.hit_cooldown, UNIT);
    assert_eq!(game.sprint_amount, UNIT);
    assert_eq!(game.frame_n, 1);
    // the player moved after the deflection: to the left, and down by gravity
    assert_eq!(game.player.velocity, vec2(-12_500, 1_500));
    assert_eq!(game.player.pos, vec2(302 * UNIT - 12_500, 85 * UNIT + 1_500));
}

#[test]
fn a_long_game_keeps_its_accounts() {
    let mut game = playing();
    game.player.count = 10;
    game.difficulty = 600;
    for _ in 0..3000 {
        // keep the player in the air and the score in place
        game.player.pos = vec2(160 * UNIT, 90 * UNIT);
        game.player.velocity = vec2(0, 0);
        game.player.dead = false;
        let cues = game.frame(NO_INPUT, UNIT, true).unwrap();
        assert_eq!(game.obstacle_grid.free_len() + game.obstacle_grid.active_len(), 44);
        let rocks = game.obstacles.iter().filter(|o| matches!(o, AnyObstacle::Rock(_))).count();
        assert_eq!(rocks, game.obstacle_grid.active_len());
        let _ = cues;
    }
}
