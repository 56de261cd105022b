use not_pong::constants::{RESOLUTION_X, RESOLUTION_Y};
use not_pong::explosion::{Paint, Particle};
use not_pong::fixed::UNIT;
use not_pong::frame::FrameInfo;
use not_pong::pad::Pad;
use not_pong::player::Player;
use not_pong::utils::vec2;

fn center() -> not_pong::utils::Vector2 {
    vec2(160 * UNIT, 90 * UNIT)
}

fn playing_at(x: i64, y: i64) -> Player {
    let mut player = Player::new();
    player.playing = true;
    player.pos = vec2(x, y);
    player.velocity = vec2(12_500, 0);
    player
}

#[test]
fn new_player_is_idle_at_the_centre() {
    let player = Player::new();
    assert_eq!(player.pos, center());
    assert_eq!(player.velocity, vec2(0, 0));
    assert_eq!(player.count, 0);
    assert!(!player.playing && !player.sprinting && !player.dead);
    assert!(!player.explosion.is_alive());
    assert_eq!(player.explosion.pos, center());
}

#[test]
fn base_velocity_points_left_or_right() {
    assert_eq!(Player::base_velocity_toward(true), vec2(12_500, 0));
    assert_eq!(Player::base_velocity_toward(false), vec2(-12_500, 0));
    let mut rng = rand::rng();
    let mut left = false;
    let mut right = false;
    for _ in 0..200 {
        let v = Player::base_velocity(&mut rng);
        assert_eq!(v.y, 0);
        assert_eq!(v.x.abs(), 12_500);
        if v.x < 0 {
            left = true;
        } else {
            right = true;
        }
    }
    assert!(left && right);
}

#[test]
fn init_sets_the_player_off() {
    let mut rng = rand::rng();
    let mut player = Player::new();
    player.init(&mut rng);
    assert_eq!(player.velocity.x.abs(), 12_500);
    assert_eq!(player.velocity.y, 0);
    assert_eq!(player.pos, center());
}

#[test]
fn first_jump_starts_the_game() {
    let mut rng = rand::rng();
    let mut player = Player::new();
    player.pos = vec2(10 * UNIT, 10 * UNIT);
    player.jump(&mut rng);
    assert!(player.playing);
    assert_eq!(player.pos, center());
    assert_eq!(player.velocity.x.abs(), 12_500);
    assert_eq!(player.velocity.y, -25_000);
}

#[test]
fn jump_in_a_game_only_lifts_the_player() {
    let mut rng = rand::rng();
    let mut player = playing_at(50 * UNIT, 60 * UNIT);
    player.velocity = vec2(-12_500, 30_000);
    player.jump(&mut rng);
    assert_eq!(player.pos, vec2(50 * UNIT, 60 * UNIT));
    assert_eq!(player.velocity, vec2(-12_500, -25_000));
}

#[test]
fn sprinting_player_does_not_rise() {
    let mut rng = rand::rng();
    let mut player = playing_at(50 * UNIT, 60 * UNIT);
    player.velocity = vec2(12_500, 7_000);
    player.sprint_on();
    assert!(player.sprinting);
    assert_eq!(player.velocity, vec2(12_500, 0));
    player.jump(&mut rng);
    assert_eq!(player.velocity, vec2(12_500, 0));
    player.sprint_off();
    assert!(!player.sprinting);
}

#[test]
fn start_puts_the_player_at_the_centre() {
    let mut rng = rand::rng();
    let mut player = Player::new();
    player.pos = vec2(1, 1);
    player.count = 3;
    player.start(&mut rng);
    assert!(player.playing);
    assert_eq!(player.pos, center());
    assert_eq!(player.count, 3);
    assert_eq!(player.velocity.x.abs(), 12_500);
}

#[test]
fn invert_scores_and_turns_back() {
    let mut player = playing_at(50 * UNIT, 60 * UNIT);
    player.velocity = vec2(12_500, -3_000);
    player.invert();
    assert_eq!(player.count, 1);
    assert_eq!(player.velocity, vec2(-12_500, -3_000));
    player.invert();
    assert_eq!(player.count, 2);
    assert_eq!(player.velocity, vec2(12_500, -3_000));
}

#[test]
fn reset_returns_to_the_idle_state_and_keeps_the_burst() {
    let mut rng = rand::rng();
    let mut player = playing_at(50 * UNIT, 60 * UNIT);
    player.count = 12;
    player.sprinting = true;
    player.dead = true;
    player.rainbow_cnt = 77;
    player.explosion.particles.push(Particle::with_velocity(vec2(1, 1), vec2(0, 0), Paint::Foreground));
    player.reset(&mut rng);
    assert_eq!(player.count, 0);
    assert!(!player.playing && !player.sprinting && !player.dead);
    assert_eq!(player.rainbow_cnt, 0);
    assert_eq!(player.pos, center());
    assert_eq!(player.velocity.x.abs(), 12_500);
    assert_eq!(player.velocity.y, 0);
    assert_eq!(player.explosion.particles.len(), 1);
}

#[test]
fn falling_player_integrates_gravity_then_velocity() {
    let mut player = playing_at(50 * UNIT, 60 * UNIT);
    player.velocity = vec2(12_500, -25_000);
    player.update(FrameInfo::new(UNIT));
    assert_eq!(player.velocity, vec2(12_500, -23_500));
    assert_eq!(player.pos, vec2(50 * UNIT + 12_500, 60 * UNIT - 23_500));
    player.update(FrameInfo::new(2 * UNIT));
    assert_eq!(player.velocity, vec2(12_500, -20_500));
    assert_eq!(player.pos, vec2(50 * UNIT + 37_500, 60 * UNIT - 23_500 - 41_000));
}

#[test]
fn sprinting_player_moves_level_in_its_direction() {
    let mut player = playing_at(50 * UNIT, 60 * UNIT);
    player.sprint_on();
    player.update(FrameInfo::new(UNIT));
    assert_eq!(player.pos, vec2(54 * UNIT, 60 * UNIT));
    assert_eq!(player.velocity, vec2(12_500, 0));
    assert_eq!(player.rainbow_cnt, 100);
    player.velocity.x = -12_500;
    player.update(FrameInfo::new(UNIT / 2));
    assert_eq!(player.pos, vec2(52 * UNIT, 60 * UNIT));
    assert_eq!(player.rainbow_cnt, 150);
}

#[test]
fn idle_player_hovers_around_the_centre() {
    let mut player = Player::new();
    // a player at rest sets off; from the centre it goes to the left
    player.update(FrameInfo::new(UNIT));
    assert_eq!(player.velocity, vec2(-12_500, 1_500));
    assert_eq!(player.pos, vec2(160 * UNIT - 12_500, 90 * UNIT + 1_500));
    assert_eq!(player.rainbow_cnt, 10);
    // below the hover line it jumps
    player.pos = vec2(100 * UNIT, 98 * UNIT + 1);
    player.update(FrameInfo::new(UNIT));
    assert_eq!(player.velocity, vec2(-12_500, -25_000 + 1_500));
    // within the tolerance of a side wall it turns back
    player.pos = vec2(4 * UNIT, 50 * UNIT);
    player.velocity = vec2(-12_500, 0);
    player.update(FrameInfo::new(UNIT));
    assert_eq!(player.velocity, vec2(12_500, 1_500));
    player.pos = vec2(311 * UNIT, 50 * UNIT);
    player.velocity = vec2(12_500, 0);
    player.update(FrameInfo::new(UNIT));
    assert_eq!(player.velocity, vec2(-12_500, 1_500));
    // left of the middle a resting player sets off to the right
    player.pos = vec2(100 * UNIT, 50 * UNIT);
    player.velocity = vec2(9_999, 0);
    player.update(FrameInfo::new(UNIT));
    assert_eq!(player.velocity, vec2(12_500, 1_500));
}

#[test]
fn bursting_player_stands_still() {
    let mut player = playing_at(50 * UNIT, 60 * UNIT);
    player.explosion.particles.push(Particle::with_velocity(vec2(50 * UNIT, 50 * UNIT), vec2(0, 0), Paint::Foreground));
    player.update(FrameInfo::new(UNIT));
    assert_eq!(player.pos, vec2(50 * UNIT, 60 * UNIT));
    assert_eq!(player.velocity, vec2(12_500, 0));
    assert_eq!(player.explosion.particles[0].lifespan, 252);
}

#[test]
fn death_causes_are_tried_in_order() {
    let left = Pad::default(true);
    let right = Pad::default(false);
    let tol = 4 * UNIT;
    // inside the arena the player lives
    let player = playing_at(50 * UNIT, 60 * UNIT);
    assert_eq!(player.death_site(&left, &right, tol), None);
    // a hit by an obstacle comes first, at the player's place
    let mut player = playing_at(-UNIT, -UNIT);
    player.dead = true;
    assert_eq!(player.death_site(&left, &right, tol), Some(vec2(-UNIT, -UNIT)));
    // left wall before the upper wall
    let player = playing_at(0, -UNIT);
    assert_eq!(player.death_site(&left, &right, tol), Some(vec2(0, -UNIT)));
    // right wall
    let player = playing_at(RESOLUTION_X - 5 * UNIT, 60 * UNIT);
    assert_eq!(player.death_site(&left, &right, tol), Some(vec2(RESOLUTION_X - UNIT, 60 * UNIT)));
    let player = playing_at(RESOLUTION_X - 5 * UNIT - 1, 60 * UNIT);
    assert_eq!(player.death_site(&left, &right, tol), None);
    // right wall before the upper wall
    let player = playing_at(RESOLUTION_X, 0);
    assert_eq!(player.death_site(&left, &right, tol), Some(vec2(RESOLUTION_X - UNIT, 0)));
    // upper wall
    let player = playing_at(50 * UNIT, 0);
    assert_eq!(player.death_site(&left, &right, tol), Some(vec2(50 * UNIT, 0)));
    // lower wall
    let player = playing_at(50 * UNIT, RESOLUTION_Y - 5 * UNIT);
    assert_eq!(player.death_site(&left, &right, tol), Some(vec2(50 * UNIT, RESOLUTION_Y - UNIT)));
    let player = playing_at(50 * UNIT, RESOLUTION_Y - 5 * UNIT - 1);
    assert_eq!(player.death_site(&left, &right, tol), None);
}

#[test]
fn a_pad_in_contact_saves_the_player_at_its_wall() {
    let tol = 20 * UNIT;
    // the left pad covers the contact at the left wall when the tolerance reaches that far
    let left = Pad::default(true);
    let right = Pad::default(false);
    let player = playing_at(0, 80 * UNIT);
    assert!(left.is_touched(player.pos, tol));
    assert_eq!(player.death_site(&left, &right, tol), None);
    assert_eq!(player.death_site(&left, &right, 4 * UNIT), Some(vec2(0, 80 * UNIT)));
    // a saved player still dies at the upper wall
    let mut high = Pad::default(true);
    high.pos.y = -10 * UNIT;
    let player = playing_at(0, 0);
    assert!(high.is_touched(player.pos, tol));
    assert_eq!(player.death_site(&high, &right, tol), Some(vec2(0, 0)));
    // the right pad, where it is in contact, saves the player at the lower wall
    let low = Pad::new(false, vec2(50 * UNIT, 170 * UNIT), vec2(4 * UNIT, 25 * UNIT));
    let player = playing_at(46 * UNIT, 175 * UNIT);
    assert!(low.is_touched(player.pos, 4 * UNIT));
    assert_eq!(player.death_site(&left, &low, 4 * UNIT), None);
    assert_eq!(player.death_site(&left, &right, 4 * UNIT), Some(vec2(46 * UNIT, 179 * UNIT)));
}

#[test]
fn dying_player_bursts_and_resets() {
    let mut rng = rand::rng();
    let left = Pad::default(true);
    let right = Pad::default(false);
    let mut player = playing_at(50 * UNIT, 0);
    player.count = 9;
    assert!(player.is_dead(&left, &right, 4 * UNIT, &mut rng));
    assert_eq!(player.count, 0);
    assert!(!player.playing);
    assert_eq!(player.pos, center());
    assert_eq!(player.explosion.pos, vec2(50 * UNIT, 0));
    let n = player.explosion.particles.len();
    assert!(n >= 25 && n < 50);
    assert!(player.explosion.particles.iter().all(|p| p.paint == Paint::Foreground));
    assert!(player.explosion.particles.iter().all(|p| p.pos == vec2(50 * UNIT, 0)));
}

#[test]
fn living_player_is_left_alone() {
    let mut rng = rand::rng();
    let left = Pad::default(true);
    let right = Pad::default(false);
    let mut player = playing_at(50 * UNIT, 60 * UNIT);
    player.count = 9;
    assert!(!player.is_dead(&left, &right, 4 * UNIT, &mut rng));
    assert_eq!(player.count, 9);
    assert!(player.playing);
    assert_eq!(player.pos, vec2(50 * UNIT, 60 * UNIT));
    assert!(!player.explosion.is_alive());
}
