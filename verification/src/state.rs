//! The particle pool: a fixed ring of slots, an emission cursor, per-frame
//! integration and the render export.

use vstd::prelude::*;
use vstd::pervasive::VecAdditionalExecFns;
use crate::fixed::div_milli;
use crate::particle::{Particle, ParticleModel, Rgb, dead_particle, stepped, step_fits, OPAQUE,
    FADE_NUMERATOR};
use crate::types::{ParticleType, ParticleEffect, TypeModel, emitted, emitted_base,
    applied_effect, applied_effects, lemma_applied_effects_preserve, lemma_applied_effects_inv};

verus! {

/// Why construction can fail.
#[derive(Clone, Copy, PartialEq, Eq, Structural, Debug)]
pub enum ParticlesError {
    /// A pool of capacity zero was asked for; the emission cursor needs at
    /// least one slot to point at.
    InvalidConfiguration,
}

/// The mathematical value of the pool: the slots in ring order and the
/// cursor of the next slot to overwrite.
#[verifier::ext_equal]
pub ghost struct StateModel {
    pub pool: Seq<ParticleModel>,
    pub emitting_index: int,
}

impl StateModel {
    /// The pool keeps its capacity for its whole life, the cursor stays in
    /// range, and every slot is well formed.
    pub open spec fn inv(self) -> bool {
        &&& 1 <= self.pool.len()
        &&& 0 <= self.emitting_index < self.pool.len()
        &&& forall|i: int| 0 <= i < self.pool.len() ==> (#[trigger] self.pool[i]).inv()
    }
}

/// One emission: the slot at the cursor is reset and overwritten with the
/// templated particle — whatever the slot held, alive or dead — and the
/// cursor advances one step around the ring.
pub open spec fn emitted_state(s: StateModel, t: TypeModel, x: int, y: int) -> StateModel {
    StateModel {
        pool: s.pool.update(s.emitting_index, emitted(t, x, y)),
        emitting_index: if s.emitting_index + 1 == s.pool.len() {
            0
        } else {
            s.emitting_index + 1
        },
    }
}

/// `count` emissions in sequence; a count above the capacity wraps the
/// cursor and overwrites the oldest emissions first.
pub open spec fn emitted_state_n(s: StateModel, count: nat, t: TypeModel, x: int, y: int)
    -> StateModel
    decreases count,
{
    if count == 0 {
        s
    } else {
        emitted_state_n(emitted_state(s, t, x, y), (count - 1) as nat, t, x, y)
    }
}

/// Emitting once more is one more emission after the first `count`.
pub proof fn lemma_emitted_state_n_snoc(s: StateModel, count: nat, t: TypeModel, x: int, y: int)
    ensures
        emitted_state_n(s, count + 1, t, x, y)
            == emitted_state(emitted_state_n(s, count, t, x, y), t, x, y),
    decreases count,
{
    assert(emitted_state_n(s, count + 1, t, x, y)
        == emitted_state_n(emitted_state(s, t, x, y), count, t, x, y));
    if count > 0 {
        lemma_emitted_state_n_snoc(emitted_state(s, t, x, y), (count - 1) as nat, t, x, y);
    }
}

/// One frame over the whole pool: every slot is stepped (dead slots are
/// fixed points of `stepped`), the cursor does not move.
pub open spec fn updated_state(s: StateModel, dt: int) -> StateModel {
    StateModel {
        pool: s.pool.map_values(|p: ParticleModel| stepped(p, dt)),
        emitting_index: s.emitting_index,
    }
}

/// What the renderer needs of one living slot: a destination position in
/// whole units (the fixed-point position truncated, then shifted by the
/// caller's offset), the size, the rotation in millidegrees, the color and
/// the opacity on the 0..=255 scale.
#[derive(Clone, Copy, PartialEq, Eq, Structural, Debug)]
pub struct RenderState {
    pub x: i64,
    pub y: i64,
    pub size_x: u32,
    pub size_y: u32,
    pub rotation: i64,
    pub color: Rgb,
    pub alpha: u8,
}

/// The render view of one slot.
pub open spec fn render_of(p: ParticleModel, offset_x: int, offset_y: int) -> RenderState {
    RenderState {
        x: (div_milli(p.pos_x) + offset_x) as i64,
        y: (div_milli(p.pos_y) + offset_y) as i64,
        size_x: p.size_x,
        size_y: p.size_y,
        rotation: p.rotation as i64,
        color: p.color,
        alpha: div_milli(p.alpha) as u8,
    }
}

/// Whether a slot's render position stays representable after the offset.
pub open spec fn render_fits(p: ParticleModel, offset_x: int, offset_y: int) -> bool {
    &&& i64::MIN <= div_milli(p.pos_x) + offset_x <= i64::MAX
    &&& i64::MIN <= div_milli(p.pos_y) + offset_y <= i64::MAX
}

/// The render views of the living slots, in pool order.
pub open spec fn render_states(pool: Seq<ParticleModel>, offset_x: int, offset_y: int)
    -> Seq<RenderState>
    decreases pool.len(),
{
    if pool.len() == 0 {
        Seq::empty()
    } else {
        let rest = render_states(pool.drop_last(), offset_x, offset_y);
        if pool.last().is_alive {
            rest.push(render_of(pool.last(), offset_x, offset_y))
        } else {
            rest
        }
    }
}

/// The fixed-capacity pool of particle slots plus the emission cursor.
pub struct ParticlesState {
    pub pool: Vec<Particle>,
    pub emitting_index: usize,
}

impl View for ParticlesState {
    type V = StateModel;

    open spec fn view(&self) -> StateModel {
        StateModel {
            pool: self.pool@.map_values(|p: Particle| p@),
            emitting_index: self.emitting_index as int,
        }
    }
}

impl ParticlesState {
    /// The slot ranges and cursor range every public call keeps.
    pub open spec fn inv(&self) -> bool {
        self@.inv()
    }

    /// A pool of `max_particles` dead slots with the cursor at zero. A
    /// capacity of zero is rejected: the cursor arithmetic in `emit` needs
    /// at least one slot.
    pub fn init(max_particles: u32) -> (r: Result<ParticlesState, ParticlesError>)
        ensures
            match r {
                Ok(s) => {
                    &&& max_particles >= 1
                    &&& s.inv()
                    &&& s@.emitting_index == 0
                    &&& s@.pool.len() == max_particles
                    &&& forall|i: int| 0 <= i < s@.pool.len() ==> s@.pool[i] == dead_particle()
                },
                Err(e) => max_particles == 0 && e == ParticlesError::InvalidConfiguration,
            },
    {
        if max_particles == 0 {
            return Err(ParticlesError::InvalidConfiguration);
        }
        let mut pool: Vec<Particle> = Vec::new();
        let mut i: u32 = 0;
        while i < max_particles
            invariant
                i <= max_particles,
                pool@.len() == i,
                forall|j: int| 0 <= j < i ==> (#[trigger] pool@[j])@ == dead_particle(),
            decreases max_particles - i,
        {
            pool.push(Particle::new());
            i = i + 1;
        }
        Ok(ParticlesState { pool, emitting_index: 0 })
    }

    /// Write `emitting_count` particles templated by `emitting_type` at
    /// `(pos_x, pos_y)` into the ring. Each lands on the slot at the cursor
    /// — the slot is reset and overwritten whether or not it is still alive;
    /// eviction goes by emission order, never by liveness — and the cursor
    /// advances modulo capacity, so a count above the capacity wraps.
    pub fn emit(
        &mut self,
        emitting_count: u32,
        emitting_type: &ParticleType,
        pos_x: i64,
        pos_y: i64,
    )
        requires
            old(self).inv(),
            emitting_type@.valid(),
        ensures
            final(self)@ == emitted_state_n(
                old(self)@, emitting_count as nat, emitting_type@, pos_x as int, pos_y as int),
            final(self).inv(),
    {
        let ghost orig = self@;
        let ghost t = emitting_type@;
        let mut i: u32 = 0;
        while i < emitting_count
            invariant
                i <= emitting_count,
                self@.inv(),
                emitting_type@ == t,
                t.valid(),
                self@ == emitted_state_n(orig, i as nat, t, pos_x as int, pos_y as int),
            decreases emitting_count - i,
        {
            let mut particle = Particle::new();
            particle.pos_x = pos_x;
            particle.pos_y = pos_y;
            particle.size_x = emitting_type.size_x;
            particle.size_y = emitting_type.size_y;
            particle.color = emitting_type.color;
            particle.is_alive = true;
            particle.lifetime = emitting_type.lifetime;
            let ghost base = emitted_base(t, pos_x as int, pos_y as int);
            assert(particle@ == base);

            let mut k: usize = 0;
            let effect_count = emitting_type.effects.len();
            while k < effect_count
                invariant
                    k <= effect_count,
                    effect_count == emitting_type.effects.len(),
                    emitting_type@ == t,
                    t.valid(),
                    base == emitted_base(t, pos_x as int, pos_y as int),
                    particle@ == applied_effects(base, t.effects.take(k as int)),
                decreases effect_count - k,
            {
                proof {
                    lemma_applied_effects_preserve(base, t.effects.take(k as int));
                    assert(t.effects[k as int] == emitting_type.effects@[k as int]@);
                }
                let effect = emitting_type.effects[k];
                match effect {
                    ParticleEffect::LinearMovement { velocity_x, velocity_y } => {
                        particle.vel_x = velocity_x;
                        particle.vel_y = velocity_y;
                    },
                    ParticleEffect::ConstantRotation { angle } => {
                        particle.rotation = angle;
                    },
                    ParticleEffect::LinearRotation { angular_velocity } => {
                        particle.vel_angular = angular_velocity;
                    },
                    ParticleEffect::FadeOut { delay } => {
                        let threshold = particle.lifetime - delay;
                        let rate = ((FADE_NUMERATOR as u64) / (threshold as u64)) as i64;
                        particle.fade_enabled = true;
                        particle.fade_threshold = threshold;
                        particle.fade_rate = rate;
                    },
                }
                proof {
                    assert(t.effects.take(k as int + 1).drop_last() =~= t.effects.take(k as int));
                    assert(t.effects.take(k as int + 1).last() == t.effects[k as int]);
                }
                k = k + 1;
            }
            proof {
                assert(t.effects.take(effect_count as int) =~= t.effects);
                assert(particle@ == emitted(t, pos_x as int, pos_y as int));
                lemma_applied_effects_inv(base, t.effects);
            }

            let ghost before = self@;
            let idx = self.emitting_index;
            assert(idx < self.pool.len());
            self.pool.set(idx, particle);
            self.emitting_index = idx + 1;
            if self.emitting_index > self.pool.len() - 1 {
                self.emitting_index = 0;
            }
            proof {
                assert(self@.pool =~= before.pool.update(
                    before.emitting_index, emitted(t, pos_x as int, pos_y as int)));
                assert(self@ == emitted_state(before, t, pos_x as int, pos_y as int));
                lemma_emitted_state_n_snoc(orig, i as nat, t, pos_x as int, pos_y as int);
            }
            i = i + 1;
        }
    }

    /// One frame of simulation, `delta_time` milliseconds after the previous
    /// one: every living slot moves by `velocity * dt`, rotates by
    /// `vel_angular * dt` (wrapped into a turn), spends `dt` of lifetime,
    /// dies exactly when the lifetime reaches zero, and — once the remaining
    /// lifetime is inside an enabled fade window — loses `fade_rate * dt` of
    /// alpha, clamped at zero. Dead slots are skipped untouched.
    pub fn update(&mut self, delta_time: i64)
        requires
            old(self).inv(),
            0 <= delta_time,
            forall|i: int|
                0 <= i < old(self)@.pool.len() && (#[trigger] old(self)@.pool[i]).is_alive
                    ==> step_fits(old(self)@.pool[i], delta_time as int),
        ensures
            final(self)@ == updated_state(old(self)@, delta_time as int),
            final(self).inv(),
    {
        let ghost orig = self@;
        let n = self.pool.len();
        let mut i: usize = 0;
        while i < n
            invariant
                i <= n,
                n == self.pool.len(),
                0 <= delta_time,
                self@.emitting_index == orig.emitting_index,
                orig.inv(),
                n == orig.pool.len(),
                forall|j: int|
                    0 <= j < n && (#[trigger] orig.pool[j]).is_alive
                        ==> step_fits(orig.pool[j], delta_time as int),
                forall|j: int| i <= j < n ==> self@.pool[j] == orig.pool[j],
                forall|j: int|
                    0 <= j < i ==> self@.pool[j] == stepped(
                        #[trigger] orig.pool[j], delta_time as int),
            decreases n - i,
        {
            let mut particle = self.pool[i];
            proof {
                assert(particle@ == self@.pool[i as int]);
                assert(self@.pool[i as int] == orig.pool[i as int]);
                assert(orig.pool[i as int].inv());
            }
            particle.step(delta_time);
            self.pool.set(i, particle);
            i = i + 1;
        }
        proof {
            assert(self@.pool =~= orig.pool.map_values(
                |p: ParticleModel| stepped(p, delta_time as int)));
            assert forall|j: int| 0 <= j < n implies (#[trigger] self@.pool[j]).inv() by {
                crate::particle::lemma_stepped_inv(orig.pool[j], delta_time as int);
            }
        }
    }

    /// The render views of the living slots, in pool order, with the given
    /// whole-unit offset added to each position. Dead slots contribute
    /// nothing; the pool itself is not touched.
    pub fn iterate_alive(&self, offset_x: i64, offset_y: i64) -> (out: Vec<RenderState>)
        requires
            self.inv(),
            forall|i: int|
                0 <= i < self@.pool.len() && (#[trigger] self@.pool[i]).is_alive
                    ==> render_fits(self@.pool[i], offset_x as int, offset_y as int),
        ensures
            out@ == render_states(self@.pool, offset_x as int, offset_y as int),
    {
        let mut out: Vec<RenderState> = Vec::new();
        let n = self.pool.len();
        let mut i: usize = 0;
        while i < n
            invariant
                i <= n,
                n == self@.pool.len(),
                self.inv(),
                forall|j: int|
                    0 <= j < n && (#[trigger] self@.pool[j]).is_alive
                        ==> render_fits(self@.pool[j], offset_x as int, offset_y as int),
                out@ == render_states(
                    self@.pool.take(i as int), offset_x as int, offset_y as int),
            decreases n - i,
        {
            let particle = self.pool[i];
            proof {
                assert(particle@ == self@.pool[i as int]);
                assert(self@.pool[i as int].inv());
            }
            if particle.is_alive {
                let whole_x = crate::fixed::div_milli_exec(particle.pos_x);
                let whole_y = crate::fixed::div_milli_exec(particle.pos_y);
                proof {
                    vstd::arithmetic::div_mod::lemma_div_pos_is_pos(particle@.alpha, 1000);
                    vstd::arithmetic::div_mod::lemma_div_is_ordered(
                        particle@.alpha, OPAQUE as int, 1000);
                }
                let alpha = ((particle.alpha as u64) / 1000) as u8;
                out.push(RenderState {
                    x: ((whole_x as i128) + (offset_x as i128)) as i64,
                    y: ((whole_y as i128) + (offset_y as i128)) as i64,
                    size_x: particle.size_x,
                    size_y: particle.size_y,
                    rotation: particle.rotation,
                    color: particle.color,
                    alpha,
                });
            }
            proof {
                assert(self@.pool.take(i as int + 1).drop_last() =~= self@.pool.take(i as int));
                assert(self@.pool.take(i as int + 1).last() == self@.pool[i as int]);
            }
            i = i + 1;
        }
        proof {
            assert(self@.pool.take(n as int) =~= self@.pool);
        }
        out
    }
}

} // verus!
