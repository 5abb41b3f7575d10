//! Emission templates: effects, the immutable particle type, and its builder.

use vstd::prelude::*;
use crate::particle::{ParticleModel, Rgb, white, dead_particle, FADE_NUMERATOR, FULL_TURN};

verus! {

/// One template-level modifier, applied once at emission time, in
/// declaration order. Continuous fields are fixed-point thousandths, as on
/// `Particle`: `angle` and `angular_velocity` in millidegrees, the
/// velocities in milli-units per second, `delay` in milliseconds.
#[derive(Clone, Copy, PartialEq, Eq, Structural, Debug)]
pub enum ParticleEffect {
    ConstantRotation { angle: i64 },
    LinearMovement { velocity_x: i64, velocity_y: i64 },
    LinearRotation { angular_velocity: i64 },
    FadeOut { delay: i64 },
}

/// The mathematical value of an effect, over unbounded integers.
pub ghost enum EffectModel {
    ConstantRotation { angle: int },
    LinearMovement { velocity_x: int, velocity_y: int },
    LinearRotation { angular_velocity: int },
    FadeOut { delay: int },
}

impl View for ParticleEffect {
    type V = EffectModel;

    open spec fn view(&self) -> EffectModel {
        match *self {
            ParticleEffect::ConstantRotation { angle } =>
                EffectModel::ConstantRotation { angle: angle as int },
            ParticleEffect::LinearMovement { velocity_x, velocity_y } =>
                EffectModel::LinearMovement {
                    velocity_x: velocity_x as int,
                    velocity_y: velocity_y as int,
                },
            ParticleEffect::LinearRotation { angular_velocity } =>
                EffectModel::LinearRotation { angular_velocity: angular_velocity as int },
            ParticleEffect::FadeOut { delay } =>
                EffectModel::FadeOut { delay: delay as int },
        }
    }
}

/// What one effect does to a freshly reset particle. A fade-out reads the
/// lifetime the base assignment already wrote: its window starts
/// `delay` before natural death and spends 256 opacity units over that
/// window, so the stored rate is `FADE_NUMERATOR / window`.
pub open spec fn applied_effect(p: ParticleModel, e: EffectModel) -> ParticleModel {
    match e {
        EffectModel::ConstantRotation { angle } => ParticleModel { rotation: angle, ..p },
        EffectModel::LinearMovement { velocity_x, velocity_y } =>
            ParticleModel { vel_x: velocity_x, vel_y: velocity_y, ..p },
        EffectModel::LinearRotation { angular_velocity } =>
            ParticleModel { vel_angular: angular_velocity, ..p },
        EffectModel::FadeOut { delay } => {
            let threshold = p.lifetime - delay;
            ParticleModel {
                fade_enabled: true,
                fade_threshold: threshold,
                fade_rate: (FADE_NUMERATOR as int) / threshold,
                ..p
            }
        },
    }
}

/// A whole effect list applied in declaration order.
pub open spec fn applied_effects(p: ParticleModel, effects: Seq<EffectModel>) -> ParticleModel
    decreases effects.len(),
{
    if effects.len() == 0 {
        p
    } else {
        applied_effect(applied_effects(p, effects.drop_last()), effects.last())
    }
}

/// The mathematical value of an emission template.
#[verifier::ext_equal]
pub ghost struct TypeModel {
    pub effects: Seq<EffectModel>,
    pub lifetime: int,
    pub size_x: u32,
    pub size_y: u32,
    pub color: Rgb,
}

/// The bounds under which one effect keeps a slot well formed when the
/// template's lifetime is `lifetime`.
pub open spec fn effect_valid_for(e: EffectModel, lifetime: int) -> bool {
    match e {
        EffectModel::ConstantRotation { angle } => 0 <= angle < FULL_TURN,
        EffectModel::FadeOut { delay } => 0 <= delay < lifetime,
        EffectModel::LinearMovement { .. } => true,
        EffectModel::LinearRotation { .. } => true,
    }
}

impl TypeModel {
    /// What emission asks of a template: a non-negative lifetime, constant
    /// rotations already wrapped into a turn, and every fade delay shorter
    /// than the lifetime. A fade whose delay reaches the lifetime would put
    /// the whole fade budget over an empty or negative window; that
    /// degenerate configuration is the caller's to avoid.
    pub open spec fn valid(self) -> bool {
        &&& 0 <= self.lifetime
        &&& forall|i: int|
            0 <= i < self.effects.len()
                ==> effect_valid_for(#[trigger] self.effects[i], self.lifetime)
    }
}

/// The base state `emit` writes before any effect runs: a reset slot at the
/// emission point, alive, carrying the template's size, color and lifetime.
pub open spec fn emitted_base(t: TypeModel, x: int, y: int) -> ParticleModel {
    ParticleModel {
        pos_x: x,
        pos_y: y,
        size_x: t.size_x,
        size_y: t.size_y,
        color: t.color,
        lifetime: t.lifetime,
        is_alive: true,
        ..dead_particle()
    }
}

/// The particle one emission of template `t` at `(x, y)` produces.
pub open spec fn emitted(t: TypeModel, x: int, y: int) -> ParticleModel {
    applied_effects(emitted_base(t, x, y), t.effects)
}

/// Effects only touch velocities, rotation and the fade state; everything
/// else on the slot is the base assignment's.
pub proof fn lemma_applied_effects_preserve(p: ParticleModel, effects: Seq<EffectModel>)
    ensures
        applied_effects(p, effects).pos_x == p.pos_x,
        applied_effects(p, effects).pos_y == p.pos_y,
        applied_effects(p, effects).size_x == p.size_x,
        applied_effects(p, effects).size_y == p.size_y,
        applied_effects(p, effects).color == p.color,
        applied_effects(p, effects).alpha == p.alpha,
        applied_effects(p, effects).lifetime == p.lifetime,
        applied_effects(p, effects).is_alive == p.is_alive,
    decreases effects.len(),
{
    if effects.len() > 0 {
        lemma_applied_effects_preserve(p, effects.drop_last());
    }
}

/// A valid effect list keeps a well-formed slot well formed.
pub proof fn lemma_applied_effects_inv(p: ParticleModel, effects: Seq<EffectModel>)
    requires
        p.inv(),
        forall|i: int|
            0 <= i < effects.len() ==> effect_valid_for(#[trigger] effects[i], p.lifetime),
    ensures
        applied_effects(p, effects).inv(),
    decreases effects.len(),
{
    if effects.len() > 0 {
        let prefix = effects.drop_last();
        lemma_applied_effects_inv(p, prefix);
        lemma_applied_effects_preserve(p, prefix);
        let q = applied_effects(p, prefix);
        match effects.last() {
            EffectModel::FadeOut { delay } => {
                vstd::arithmetic::div_mod::lemma_div_pos_is_pos(
                    FADE_NUMERATOR as int, q.lifetime - delay);
            },
            _ => {},
        }
    }
}

/// An immutable emission template: an ordered effect list, a lifetime in
/// milliseconds, a size in pixels and a base color. Built once through
/// `ParticleTypeBuilder` and then only read.
pub struct ParticleType {
    pub effects: Vec<ParticleEffect>,
    pub lifetime: i64,
    pub size_x: u32,
    pub size_y: u32,
    pub color: Rgb,
}

impl View for ParticleType {
    type V = TypeModel;

    open spec fn view(&self) -> TypeModel {
        TypeModel {
            effects: self.effects@.map_values(|e: ParticleEffect| e@),
            lifetime: self.lifetime as int,
            size_x: self.size_x,
            size_y: self.size_y,
            color: self.color,
        }
    }
}

/// A mutable accumulator for `ParticleType`: each `with_` step returns the
/// builder with the field updated, and `build` hands the finished template
/// over.
pub struct ParticleTypeBuilder {
    pub effects: Vec<ParticleEffect>,
    pub lifetime: i64,
    pub size_x: u32,
    pub size_y: u32,
    pub color: Rgb,
}

impl View for ParticleTypeBuilder {
    type V = TypeModel;

    open spec fn view(&self) -> TypeModel {
        TypeModel {
            effects: self.effects@.map_values(|e: ParticleEffect| e@),
            lifetime: self.lifetime as int,
            size_x: self.size_x,
            size_y: self.size_y,
            color: self.color,
        }
    }
}

impl ParticleTypeBuilder {
    /// A builder with the given size and lifetime (milliseconds), a white
    /// base color and no effects.
    pub fn new(size_x: u32, size_y: u32, lifetime: i64) -> (b: Self)
        ensures
            b@ == (TypeModel {
                effects: Seq::<EffectModel>::empty(),
                lifetime: lifetime as int,
                size_x,
                size_y,
                color: white(),
            }),
    {
        Self {
            effects: Vec::new(),
            lifetime,
            size_x,
            size_y,
            color: Rgb::white(),
        }
    }

    /// The same builder with the base color replaced.
    pub fn with_color(self, color: Rgb) -> (b: Self)
        ensures
            b@ == (TypeModel { color, ..self@ }),
    {
        Self { color, ..self }
    }

    /// The same builder with `effect` appended; emission applies effects in
    /// the order they were added.
    pub fn with_effect(self, effect: ParticleEffect) -> (b: Self)
        ensures
            b@ == (TypeModel { effects: self@.effects.push(effect@), ..self@ }),
    {
        let mut this = self;
        this.effects.push(effect);
        this
    }

    /// The finished immutable template.
    pub fn build(self) -> (t: ParticleType)
        ensures
            t@ == self@,
    {
        ParticleType {
            effects: self.effects,
            lifetime: self.lifetime,
            size_x: self.size_x,
            size_y: self.size_y,
            color: self.color,
        }
    }
}

} // verus!
