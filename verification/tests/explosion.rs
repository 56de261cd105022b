use not_pong::constants::{MAX_PARTICLE_QTY, MIN_PARTICLE_QTY, RESOLUTION_X, RESOLUTION_Y};
use not_pong::explosion::{Explosion, Paint, Particle};
use not_pong::fixed::UNIT;
use not_pong::utils::vec2;

#[test]
fn particle_step_decays_fades_and_moves() {
    let mut p = Particle::with_velocity(vec2(100 * UNIT, 50 * UNIT), vec2(UNIT, -2 * UNIT), Paint::Foreground);
    assert_eq!(p.lifespan, 255);
    assert!(p.is_alive());
    p.apply_force(vec2(1_000, 500));
    p.update(UNIT);
    assert_eq!(p.velocity, vec2(9_800 + 1_000, -19_600 + 500));
    assert_eq!(p.pos, vec2(100 * UNIT + 10_800, 50 * UNIT - 19_100));
    assert_eq!(p.acceleration, vec2(0, 0));
    assert_eq!(p.lifespan, 252);
    assert!(p.is_alive());
}

#[test]
fn particle_lifespan_saturates_at_zero() {
    let mut p = Particle::with_velocity(vec2(100 * UNIT, 50 * UNIT), vec2(0, 0), Paint::Foreground);
    p.lifespan = 2;
    p.update(UNIT);
    assert_eq!(p.lifespan, 0);
    assert!(!p.is_alive());
    p.update(UNIT);
    assert_eq!(p.lifespan, 0);
}

#[test]
fn particle_fade_drops_the_fraction_of_a_short_tick() {
    let mut p = Particle::with_velocity(vec2(100 * UNIT, 50 * UNIT), vec2(0, 0), Paint::Foreground);
    p.update(UNIT / 2);
    assert_eq!(p.lifespan, 254);
    p.update(UNIT / 4);
    assert_eq!(p.lifespan, 254);
}

#[test]
fn particle_dies_outside_the_arena_with_half_open_bounds() {
    let mut p = Particle::with_velocity(vec2(0, 0), vec2(0, 0), Paint::Foreground);
    p.update(0);
    assert!(p.is_alive());
    let mut p = Particle::with_velocity(vec2(RESOLUTION_X - 1, 0), vec2(0, 0), Paint::Foreground);
    p.update(0);
    assert!(p.is_alive());
    let mut p = Particle::with_velocity(vec2(RESOLUTION_X, 0), vec2(0, 0), Paint::Foreground);
    p.update(0);
    assert!(!p.is_alive());
    let mut p = Particle::with_velocity(vec2(0, RESOLUTION_Y), vec2(0, 0), Paint::Foreground);
    p.update(0);
    assert!(!p.is_alive());
    let mut p = Particle::with_velocity(vec2(0, 0), vec2(-UNIT, 0), Paint::Foreground);
    p.update(0);
    assert!(!p.is_alive());
    let mut p = Particle::with_velocity(vec2(0, 0), vec2(0, -UNIT), Paint::Foreground);
    p.update(0);
    assert!(!p.is_alive());
    // a particle that came back stays dead
    p.pos = vec2(UNIT, UNIT);
    p.velocity = vec2(0, 0);
    p.update(0);
    assert!(!p.is_alive());
}

#[test]
fn random_particle_velocity_stays_below_the_bound() {
    let mut rng = rand::rng();
    let mut distinct = false;
    let first = Particle::new(vec2(5, 6), 2 * UNIT, Paint::Hue(7), &mut rng);
    for _ in 0..200 {
        let p = Particle::new(vec2(5, 6), 2 * UNIT, Paint::Hue(7), &mut rng);
        assert_eq!(p.pos, vec2(5, 6));
        assert_eq!(p.paint, Paint::Hue(7));
        assert_eq!(p.lifespan, 255);
        assert!(p.alive);
        assert!(p.velocity.x.abs() < 2 * UNIT);
        assert!(p.velocity.y.abs() < 2 * UNIT);
        if p.velocity != first.velocity {
            distinct = true;
        }
    }
    assert!(distinct);
}

#[test]
fn explode_adds_a_burst_of_bounded_size() {
    let mut rng = rand::rng();
    for _ in 0..50 {
        let mut e = Explosion::new(vec2(10 * UNIT, 20 * UNIT));
        assert!(!e.is_alive());
        e.explode(17_500, false, &mut rng);
        let n = e.particles.len();
        assert!(n >= MIN_PARTICLE_QTY && n < MAX_PARTICLE_QTY);
        assert!(e.is_alive());
        for p in e.particles.iter() {
            assert_eq!(p.pos, vec2(10 * UNIT, 20 * UNIT));
            assert_eq!(p.paint, Paint::Foreground);
            assert_eq!(p.lifespan, 255);
        }
    }
}

#[test]
fn rainbow_burst_sweeps_the_hues() {
    let mut rng = rand::rng();
    let mut e = Explosion::new(vec2(10 * UNIT, 20 * UNIT));
    e.explode(8_000, true, &mut rng);
    let n = e.particles.len() as i64;
    for (i, p) in e.particles.iter().enumerate() {
        assert_eq!(p.paint, Paint::Hue((i as i64) * 360 * UNIT / n));
    }
    assert_eq!(e.particles[0].paint, Paint::Hue(0));
}

#[test]
fn explode_with_pos_moves_the_burst() {
    let mut rng = rand::rng();
    let mut e = Explosion::new(vec2(0, 0));
    e.explode_with_pos(vec2(7 * UNIT, 8 * UNIT), 17_500, false, &mut rng);
    assert_eq!(e.pos, vec2(7 * UNIT, 8 * UNIT));
    assert!(e.particles.iter().all(|p| p.pos == vec2(7 * UNIT, 8 * UNIT)));
}

#[test]
fn update_prunes_dead_particles_and_keeps_the_order() {
    let mut e = Explosion::new(vec2(0, 0));
    let stay = Particle::with_velocity(vec2(50 * UNIT, 50 * UNIT), vec2(UNIT, 0), Paint::Hue(1));
    let leave = Particle::with_velocity(vec2(0, 50 * UNIT), vec2(-UNIT, 0), Paint::Hue(2));
    let mut fade = Particle::with_velocity(vec2(60 * UNIT, 50 * UNIT), vec2(0, 0), Paint::Hue(3));
    fade.lifespan = 3;
    let last = Particle::with_velocity(vec2(70 * UNIT, 50 * UNIT), vec2(0, 0), Paint::Hue(4));
    e.particles.push(stay);
    e.particles.push(leave);
    e.particles.push(fade);
    e.particles.push(last);
    e.update(UNIT);
    assert_eq!(e.particles.len(), 2);
    assert_eq!(e.particles[0].paint, Paint::Hue(1));
    assert_eq!(e.particles[0].pos, vec2(50 * UNIT + 9_800, 50 * UNIT));
    assert_eq!(e.particles[1].paint, Paint::Hue(4));
    assert_eq!(e.pos, vec2(0, 0));
}

#[test]
fn explosion_dies_out_within_the_greatest_lifespan() {
    let mut rng = rand::rng();
    let mut e = Explosion::new(vec2(160 * UNIT, 90 * UNIT));
    e.explode(11_000, true, &mut rng);
    let mut ticks = 0;
    while e.is_alive() {
        e.update(UNIT);
        ticks += 1;
        assert!(ticks <= 255);
    }
    // three units of lifespan go per reference tick
    assert!(ticks <= 85);
}

#[test]
fn slowest_fading_explosion_lasts_the_greatest_lifespan() {
    let mut e = Explosion::new(vec2(160 * UNIT, 90 * UNIT));
    e.particles.push(Particle::with_velocity(vec2(160 * UNIT, 90 * UNIT), vec2(0, 0), Paint::Foreground));
    // the shortest tick that still fades a particle by one unit
    let dt = 3_334;
    for _ in 0..254 {
        e.update(dt);
        assert!(e.is_alive());
    }
    e.update(dt);
    assert!(!e.is_alive());
}
