//! A single simulation unit: kinematic and visual state plus a liveness flag.

use vstd::prelude::*;
use crate::fixed::scaled;

verus! {

/// One full turn, in millidegrees. Rotations are kept wrapped into
/// `[0, FULL_TURN)`.
pub const FULL_TURN: i64 = 360 * 1000;

/// Full opacity, in milli-steps of the 0..=255 alpha scale.
pub const OPAQUE: i64 = 255 * 1000;

/// Numerator of the fade rate: a fade spreads 256 opacity units over the
/// fade window, and the stored rate is in milli-units per second, computed
/// from a window length in milliseconds. Hence 256 * 1000 * 1000 divided by
/// the window length in milliseconds.
pub const FADE_NUMERATOR: i64 = 256 * 1000 * 1000;

/// A color channel triple, one byte per channel. A particle's opacity is a
/// separate, finer-grained field of the particle itself.
#[derive(Clone, Copy, PartialEq, Eq, Structural, Debug)]
pub struct Rgb {
    pub r: u8,
    pub g: u8,
    pub b: u8,
}

/// The default particle color.
pub open spec fn white() -> Rgb {
    Rgb { r: 255, g: 255, b: 255 }
}

impl Rgb {
    /// White, the color every slot is reset to.
    pub fn white() -> (c: Rgb)
        ensures
            c == white(),
    {
        Rgb { r: 255, g: 255, b: 255 }
    }
}

/// One pool slot. All continuous fields are fixed-point thousandths:
/// positions and velocities in milli-units (per second for the velocities),
/// `rotation` and `vel_angular` in millidegrees, `alpha` in milli-steps of
/// the 0..=255 opacity scale, `lifetime` and `fade_threshold` in
/// milliseconds, and `fade_rate` in milli-opacity-steps per second.
#[derive(Clone, Copy, Debug)]
pub struct Particle {
    pub pos_x: i64,
    pub pos_y: i64,
    pub vel_x: i64,
    pub vel_y: i64,
    pub vel_angular: i64,
    pub size_x: u32,
    pub size_y: u32,
    pub rotation: i64,
    pub color: Rgb,
    pub alpha: i64,
    pub fade_enabled: bool,
    pub fade_threshold: i64,
    pub fade_rate: i64,
    pub lifetime: i64,
    pub is_alive: bool,
}

/// The mathematical value of a particle: the same fields over unbounded
/// integers, so laws about stepping can be stated without machine ranges.
pub ghost struct ParticleModel {
    pub pos_x: int,
    pub pos_y: int,
    pub vel_x: int,
    pub vel_y: int,
    pub vel_angular: int,
    pub size_x: u32,
    pub size_y: u32,
    pub rotation: int,
    pub color: Rgb,
    pub alpha: int,
    pub fade_enabled: bool,
    pub fade_threshold: int,
    pub fade_rate: int,
    pub lifetime: int,
    pub is_alive: bool,
}

impl View for Particle {
    type V = ParticleModel;

    open spec fn view(&self) -> ParticleModel {
        ParticleModel {
            pos_x: self.pos_x as int,
            pos_y: self.pos_y as int,
            vel_x: self.vel_x as int,
            vel_y: self.vel_y as int,
            vel_angular: self.vel_angular as int,
            size_x: self.size_x,
            size_y: self.size_y,
            rotation: self.rotation as int,
            color: self.color,
            alpha: self.alpha as int,
            fade_enabled: self.fade_enabled,
            fade_threshold: self.fade_threshold as int,
            fade_rate: self.fade_rate as int,
            lifetime: self.lifetime as int,
            is_alive: self.is_alive,
        }
    }
}

/// The state every slot is created with and reset to: dead, at the origin,
/// motionless, white, fully opaque, not fading, with no lifetime left.
pub open spec fn dead_particle() -> ParticleModel {
    ParticleModel {
        pos_x: 0,
        pos_y: 0,
        vel_x: 0,
        vel_y: 0,
        vel_angular: 0,
        size_x: 0,
        size_y: 0,
        rotation: 0,
        color: white(),
        alpha: OPAQUE as int,
        fade_enabled: false,
        fade_threshold: 0,
        fade_rate: 0,
        lifetime: 0,
        is_alive: false,
    }
}

impl ParticleModel {
    /// Ranges every pool slot satisfies between calls: the rotation is
    /// wrapped, the alpha stays on the opacity scale, fading only ever
    /// lowers opacity, and a living particle has lifetime left to spend.
    pub open spec fn inv(self) -> bool {
        &&& 0 <= self.rotation < FULL_TURN
        &&& 0 <= self.alpha <= OPAQUE
        &&& 0 <= self.fade_rate
        &&& self.is_alive ==> self.lifetime >= 0
    }
}

/// One frame of simulation on a single slot, over `dt` milliseconds:
/// position moves by `velocity * dt`, rotation accumulates
/// `vel_angular * dt` and wraps into `[0, FULL_TURN)`, the lifetime is spent,
/// the particle dies exactly when the lifetime reaches zero, and once the
/// remaining lifetime has entered an enabled fade window the alpha loses
/// `fade_rate * dt`, clamped at zero. Dead slots are untouched.
pub open spec fn stepped(p: ParticleModel, dt: int) -> ParticleModel {
    if !p.is_alive {
        p
    } else {
        let lifetime = p.lifetime - dt;
        let raw_loss = scaled(p.fade_rate, dt);
        let loss = if raw_loss > 0 { raw_loss } else { 0 };
        let faded = p.alpha - loss;
        ParticleModel {
            pos_x: p.pos_x + scaled(p.vel_x, dt),
            pos_y: p.pos_y + scaled(p.vel_y, dt),
            rotation: (p.rotation + scaled(p.vel_angular, dt)) % (FULL_TURN as int),
            lifetime,
            is_alive: lifetime > 0,
            alpha: if p.fade_enabled && lifetime < p.fade_threshold {
                if faded >= 0 { faded } else { 0 }
            } else {
                p.alpha
            },
            ..p
        }
    }
}

/// Whether the positions that one step produces stay representable. This is
/// the only machine limit a frame can run into; everything else a step
/// computes is bounded by construction.
pub open spec fn step_fits(p: ParticleModel, dt: int) -> bool {
    &&& i64::MIN <= p.pos_x + scaled(p.vel_x, dt) <= i64::MAX
    &&& i64::MIN <= p.pos_y + scaled(p.vel_y, dt) <= i64::MAX
}

/// Stepping preserves the slot ranges.
pub proof fn lemma_stepped_inv(p: ParticleModel, dt: int)
    requires
        p.inv(),
        dt >= 0,
    ensures
        stepped(p, dt).inv(),
{
    if p.is_alive {
        vstd::arithmetic::div_mod::lemma_mod_division_less_than_divisor(
            p.rotation + scaled(p.vel_angular, dt), FULL_TURN as int);
    }
}

impl Particle {
    /// A fresh dead slot.
    pub fn new() -> (p: Particle)
        ensures
            p@ == dead_particle(),
    {
        Particle {
            pos_x: 0,
            pos_y: 0,
            vel_x: 0,
            vel_y: 0,
            vel_angular: 0,
            size_x: 0,
            size_y: 0,
            rotation: 0,
            color: Rgb::white(),
            alpha: OPAQUE,
            fade_enabled: false,
            fade_threshold: 0,
            fade_rate: 0,
            lifetime: 0,
            is_alive: false,
        }
    }

    /// One frame of simulation on this slot; a dead slot is left untouched.
    pub fn step(&mut self, dt: i64)
        requires
            old(self)@.inv(),
            0 <= dt,
            old(self)@.is_alive ==> step_fits(old(self)@, dt as int),
        ensures
            final(self)@ == stepped(old(self)@, dt as int),
            final(self)@.inv(),
    {
        if self.is_alive {
            let dx = crate::fixed::scale_milli(self.vel_x, dt);
            let dy = crate::fixed::scale_milli(self.vel_y, dt);
            self.pos_x = ((self.pos_x as i128) + dx) as i64;
            self.pos_y = ((self.pos_y as i128) + dy) as i64;

            let dr = crate::fixed::scale_milli(self.vel_angular, dt);
            self.rotation = crate::fixed::rem_euclid_milli((self.rotation as i128) + dr, FULL_TURN);

            let lifetime = ((self.lifetime as i128) - (dt as i128)) as i64;
            self.lifetime = lifetime;
            if lifetime <= 0 {
                self.is_alive = false;
            }

            if self.fade_enabled && lifetime < self.fade_threshold {
                let raw_loss = crate::fixed::scale_milli(self.fade_rate, dt);
                let loss: i128 = if raw_loss > 0 { raw_loss } else { 0 };
                let faded = (self.alpha as i128) - loss;
                self.alpha = if faded >= 0 { faded as i64 } else { 0 };
            }
        }
    }
}

} // verus!
