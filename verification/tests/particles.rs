//! Behavior of the particle pool through its public interface. All
//! continuous quantities are in thousandths: 5000 is 5.0 units, 180000 is
//! 180 degrees, 255000 is full alpha.

use particles::{
    Particle, ParticleEffect, ParticleTypeBuilder, ParticlesError, ParticlesState, Rgb, MILLI,
};

#[test]
fn init_particles() {
    let particles_state = ParticlesState::init(16).unwrap();
    let last = &particles_state.pool[15];
    assert_eq!(last.color, Rgb { r: 255, g: 255, b: 255 });
}

#[test]
fn update_particles() {
    let mut particles_state = ParticlesState::init(16).unwrap();
    {
        let last = &mut particles_state.pool[15];
        last.vel_x = 1000;
        last.lifetime = 5000;
        last.is_alive = true;
        last.vel_angular = 180000;
    }
    particles_state.update(5000);
    let last = &particles_state.pool[15];
    assert_eq!(last.pos_x, 5000);
    assert_eq!(last.lifetime, 0);
    assert_eq!(last.is_alive, false);
    assert_eq!(last.rotation, 180000);
}

#[test]
fn emit_particles() {
    let mut particles_state = ParticlesState::init(16).unwrap();
    let ptype = ParticleTypeBuilder::new(16, 16, 4000)
        .with_effect(ParticleEffect::LinearMovement { velocity_x: 5000, velocity_y: 4000 })
        .build();
    particles_state.emit(4, &ptype, 0, 0);
    particles_state.update(2000);
    let last = &particles_state.pool[3];
    assert_eq!(last.pos_x, 10000);
    assert_eq!(last.pos_y, 8000);
    assert_eq!(last.lifetime, 2000);
    assert_eq!(last.is_alive, true);
}

#[test]
fn particles_fading() {
    let mut particles_state = ParticlesState::init(4).unwrap();
    let ptype = ParticleTypeBuilder::new(16, 16, 4000)
        .with_effect(ParticleEffect::FadeOut { delay: 2000 })
        .build();
    particles_state.emit(4, &ptype, 0, 0);
    {
        let last = &particles_state.pool[3];
        assert_eq!(last.alpha, 255000);
    }
    particles_state.update(1000);
    particles_state.update(1000);
    particles_state.update(1000);
    let last = &particles_state.pool[3];
    assert_eq!(last.alpha, 127000);
}

#[test]
fn it_works() {
    let result = 2 + 2;
    assert_eq!(result, 4);
}

#[test]
fn init_makes_every_slot_dead_and_default() {
    let state = ParticlesState::init(7).unwrap();
    assert_eq!(state.pool.len(), 7);
    assert_eq!(state.emitting_index, 0);
    for slot in &state.pool {
        assert!(!slot.is_alive);
        assert_eq!(slot.color, Rgb { r: 255, g: 255, b: 255 });
        assert_eq!(slot.alpha, 255000);
        assert_eq!(slot.pos_x, 0);
        assert_eq!(slot.pos_y, 0);
        assert_eq!(slot.vel_x, 0);
        assert_eq!(slot.vel_y, 0);
        assert_eq!(slot.lifetime, 0);
    }
}

#[test]
fn init_zero_capacity_is_rejected() {
    match ParticlesState::init(0) {
        Ok(_) => panic!("a zero-capacity pool must be rejected"),
        Err(e) => assert_eq!(e, ParticlesError::InvalidConfiguration),
    }
}

#[test]
fn displacement_is_linear_across_frames() {
    let mut state = ParticlesState::init(1).unwrap();
    let ptype = ParticleTypeBuilder::new(1, 1, 10 * MILLI)
        .with_effect(ParticleEffect::LinearMovement { velocity_x: 3 * MILLI, velocity_y: -2 * MILLI })
        .build();
    state.emit(1, &ptype, 500, 500);
    state.update(1000);
    state.update(2000);
    state.update(500);
    // 3.5 seconds at (3, -2) units per second from (0.5, 0.5)
    assert_eq!(state.pool[0].pos_x, 500 + 10500);
    assert_eq!(state.pool[0].pos_y, 500 - 7000);
    assert_eq!(state.pool[0].lifetime, 10000 - 3500);
    assert!(state.pool[0].is_alive);
}

#[test]
fn rotation_wraps_into_a_turn() {
    let mut state = ParticlesState::init(2).unwrap();
    let spin = ParticleTypeBuilder::new(1, 1, 10000)
        .with_effect(ParticleEffect::LinearRotation { angular_velocity: 270000 })
        .build();
    state.emit(1, &spin, 0, 0);
    let counter_spin = ParticleTypeBuilder::new(1, 1, 10000)
        .with_effect(ParticleEffect::LinearRotation { angular_velocity: -90000 })
        .build();
    state.emit(1, &counter_spin, 0, 0);

    state.update(1000);
    assert_eq!(state.pool[0].rotation, 270000);
    // a negative accumulation wraps to the positive side: -90 is 270
    assert_eq!(state.pool[1].rotation, 270000);

    state.update(1000);
    // 540 wraps to 180; -180 wraps to 180
    assert_eq!(state.pool[0].rotation, 180000);
    assert_eq!(state.pool[1].rotation, 180000);
}

#[test]
fn constant_rotation_sets_the_angle() {
    let mut state = ParticlesState::init(1).unwrap();
    let ptype = ParticleTypeBuilder::new(1, 1, 1000)
        .with_effect(ParticleEffect::ConstantRotation { angle: 45000 })
        .build();
    state.emit(1, &ptype, 0, 0);
    assert_eq!(state.pool[0].rotation, 45000);
}

#[test]
fn emit_wraps_and_overwrites_in_cursor_order() {
    let mut state = ParticlesState::init(4).unwrap();
    let long_lived = ParticleTypeBuilder::new(1, 1, 60000).build();
    state.emit(2, &long_lived, 1000, 1000);
    assert_eq!(state.emitting_index, 2);
    assert!(state.pool[0].is_alive);

    // a full burst wraps the cursor and evicts both earlier particles,
    // alive as they still are
    state.emit(4, &long_lived, 2000, 2000);
    assert_eq!(state.emitting_index, 2);
    for slot in &state.pool {
        assert!(slot.is_alive);
        assert_eq!(slot.pos_x, 2000);
        assert_eq!(slot.pos_y, 2000);
    }
}

#[test]
fn emit_count_zero_changes_nothing() {
    let mut state = ParticlesState::init(3).unwrap();
    let ptype = ParticleTypeBuilder::new(1, 1, 1000).build();
    state.emit(0, &ptype, 9000, 9000);
    assert_eq!(state.emitting_index, 0);
    for slot in &state.pool {
        assert!(!slot.is_alive);
    }
}

#[test]
fn fade_waits_for_its_window() {
    let mut state = ParticlesState::init(1).unwrap();
    let ptype = ParticleTypeBuilder::new(1, 1, 4000)
        .with_effect(ParticleEffect::FadeOut { delay: 2000 })
        .build();
    state.emit(1, &ptype, 0, 0);
    state.update(1000);
    assert_eq!(state.pool[0].alpha, 255000);
    // at the window's edge (remaining lifetime equals the threshold) the
    // fade has not begun yet
    state.update(1000);
    assert_eq!(state.pool[0].alpha, 255000);
    state.update(1000);
    assert_eq!(state.pool[0].alpha, 127000);
}

#[test]
fn fade_clamps_alpha_at_zero() {
    let mut state = ParticlesState::init(1).unwrap();
    // a one-second window spends 256 units per second; 1.5 seconds inside
    // the window would overspend, so the alpha floors at zero
    let ptype = ParticleTypeBuilder::new(1, 1, 2000)
        .with_effect(ParticleEffect::FadeOut { delay: 1000 })
        .build();
    state.emit(1, &ptype, 0, 0);
    state.update(1500);
    assert!(state.pool[0].is_alive);
    assert_eq!(state.pool[0].alpha, 0);
}

#[test]
fn dead_slots_are_skipped() {
    let mut state = ParticlesState::init(1).unwrap();
    let ptype = ParticleTypeBuilder::new(1, 1, 1000)
        .with_effect(ParticleEffect::LinearMovement { velocity_x: 1000, velocity_y: 0 })
        .build();
    state.emit(1, &ptype, 0, 0);
    state.update(1000);
    assert!(!state.pool[0].is_alive);
    assert_eq!(state.pool[0].pos_x, 1000);
    // a dead slot no longer moves or spends lifetime
    state.update(1000);
    assert_eq!(state.pool[0].pos_x, 1000);
    assert_eq!(state.pool[0].lifetime, 0);
}

#[test]
fn full_pool_spins_and_dies_on_schedule() {
    let mut state = ParticlesState::init(16).unwrap();
    let ptype = ParticleTypeBuilder::new(8, 8, 5000)
        .with_effect(ParticleEffect::LinearRotation { angular_velocity: 180000 })
        .build();
    state.emit(16, &ptype, 0, 0);
    state.update(5000);
    for slot in &state.pool {
        assert_eq!(slot.is_alive, false);
        assert_eq!(slot.rotation, 180000);
    }
}

#[test]
fn iterate_alive_reports_only_living_slots() {
    let mut state = ParticlesState::init(8).unwrap();
    let ptype = ParticleTypeBuilder::new(16, 24, 4000)
        .with_color(Rgb { r: 10, g: 20, b: 30 })
        .build();
    state.emit(3, &ptype, 2500, -1500);
    let views = state.iterate_alive(100, 200);
    assert_eq!(views.len(), 3);
    for view in &views {
        // 2.5 truncates to 2 whole units; -1.5 truncates toward zero to -1
        assert_eq!(view.x, 2 + 100);
        assert_eq!(view.y, -1 + 200);
        assert_eq!(view.size_x, 16);
        assert_eq!(view.size_y, 24);
        assert_eq!(view.rotation, 0);
        assert_eq!(view.color, Rgb { r: 10, g: 20, b: 30 });
        assert_eq!(view.alpha, 255);
    }
    let unshifted = state.iterate_alive(0, 0);
    assert_eq!(unshifted.len(), 3);
    assert_eq!(unshifted[0].x, 2);
}

#[test]
fn iterate_alive_alpha_follows_the_fade() {
    let mut state = ParticlesState::init(1).unwrap();
    let ptype = ParticleTypeBuilder::new(1, 1, 4000)
        .with_effect(ParticleEffect::FadeOut { delay: 2000 })
        .build();
    state.emit(1, &ptype, 0, 0);
    state.update(1000);
    state.update(1000);
    state.update(1000);
    let views = state.iterate_alive(0, 0);
    assert_eq!(views.len(), 1);
    assert_eq!(views[0].alpha, 127);
    state.update(1000);
    assert_eq!(state.iterate_alive(0, 0).len(), 0);
}

#[test]
fn builder_accumulates_in_order() {
    // the fade reads the lifetime written before any effect runs, and a
    // later effect does not disturb an earlier one
    let ptype = ParticleTypeBuilder::new(2, 3, 4000)
        .with_effect(ParticleEffect::ConstantRotation { angle: 90000 })
        .with_effect(ParticleEffect::FadeOut { delay: 1000 })
        .with_effect(ParticleEffect::LinearMovement { velocity_x: 7000, velocity_y: 0 })
        .build();
    let mut state = ParticlesState::init(1).unwrap();
    state.emit(1, &ptype, 0, 0);
    let slot = &state.pool[0];
    assert_eq!(slot.rotation, 90000);
    assert_eq!(slot.vel_x, 7000);
    assert!(slot.fade_enabled);
    assert_eq!(slot.fade_threshold, 3000);
    // 256 opacity units over a 3-second window, in milli-units per second
    assert_eq!(slot.fade_rate, 256000000 / 3000);
    assert_eq!(slot.size_x, 2);
    assert_eq!(slot.size_y, 3);
}

#[test]
fn fresh_particle_is_dead_and_opaque() {
    let particle = Particle::new();
    assert!(!particle.is_alive);
    assert_eq!(particle.alpha, 255000);
    assert_eq!(particle.color, Rgb::white());
    assert_eq!(particle.rotation, 0);
}
