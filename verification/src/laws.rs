//! The pool's laws: proved statements relating whole runs of frames and
//! bursts of emissions to closed-form results.

use vstd::prelude::*;
use crate::fixed::{lemma_div_milli_exact, lemma_div_milli_add_exact};
use crate::particle::{ParticleModel, stepped, lemma_stepped_inv, FULL_TURN};
use crate::state::{StateModel, emitted_state, emitted_state_n};
use crate::types::{TypeModel, emitted};

verus! {

/// The elapsed time of a run of frames.
pub open spec fn total(dts: Seq<int>) -> int
    decreases dts.len(),
{
    if dts.len() == 0 {
        0
    } else {
        dts[0] + total(dts.drop_first())
    }
}

/// Frame times are durations: none is negative.
pub open spec fn all_nonneg(dts: Seq<int>) -> bool {
    forall|i: int| 0 <= i < dts.len() ==> dts[i] >= 0
}

/// A slot after a run of frames, one step per frame time.
pub open spec fn stepped_many(p: ParticleModel, dts: Seq<int>) -> ParticleModel
    decreases dts.len(),
{
    if dts.len() == 0 {
        p
    } else {
        stepped_many(stepped(p, dts[0]), dts.drop_first())
    }
}

/// Every frame of the run rotates, moves or fades by a whole number of
/// thousandths: the product `v * dts[i]` divides by 1000 exactly.
pub open spec fn all_scale_exact(v: int, dts: Seq<int>) -> bool {
    forall|i: int| 0 <= i < dts.len() ==> #[trigger] ((v * dts[i]) % 1000) == 0
}

proof fn lemma_drop_first_nonneg(dts: Seq<int>)
    requires
        dts.len() > 0,
        all_nonneg(dts),
    ensures
        all_nonneg(dts.drop_first()),
{
    let rest = dts.drop_first();
    assert forall|i: int| 0 <= i < rest.len() implies rest[i] >= 0 by {
        assert(dts[i + 1] >= 0);
    }
}

proof fn lemma_drop_first_scale_exact(v: int, dts: Seq<int>)
    requires
        dts.len() > 0,
        all_scale_exact(v, dts),
    ensures
        all_scale_exact(v, dts.drop_first()),
{
    let rest = dts.drop_first();
    assert forall|i: int| 0 <= i < rest.len() implies #[trigger] ((v * rest[i]) % 1000) == 0 by {
        assert((v * dts[i + 1]) % 1000 == 0);
    }
}

/// A run of non-negative frame times elapses a non-negative total.
pub proof fn lemma_total_nonneg(dts: Seq<int>)
    requires
        all_nonneg(dts),
    ensures
        total(dts) >= 0,
    decreases dts.len(),
{
    if dts.len() > 0 {
        lemma_drop_first_nonneg(dts);
        lemma_total_nonneg(dts.drop_first());
    }
}

/// A dead slot is a fixed point of the simulation: no run of frames touches
/// it until an emission resets it.
pub proof fn lemma_dead_slot_is_fixed(p: ParticleModel, dts: Seq<int>)
    requires
        !p.is_alive,
    ensures
        stepped_many(p, dts) == p,
    decreases dts.len(),
{
    if dts.len() > 0 {
        lemma_dead_slot_is_fixed(p, dts.drop_first());
    }
}

/// Law: while it lives, a particle's lifetime falls by exactly the elapsed
/// time, and a non-empty run of frames leaves it dead exactly when the total
/// elapsed time has reached the lifetime it started the run with.
pub proof fn lemma_death_exactly_at_lifetime(p: ParticleModel, dts: Seq<int>)
    requires
        p.inv(),
        p.is_alive,
        all_nonneg(dts),
    ensures
        dts.len() > 0 ==> (stepped_many(p, dts).is_alive <==> p.lifetime > total(dts)),
        stepped_many(p, dts).is_alive
            ==> stepped_many(p, dts).lifetime == p.lifetime - total(dts),
    decreases dts.len(),
{
    if dts.len() > 0 {
        let d0 = dts[0];
        let rest = dts.drop_first();
        assert(d0 >= 0);
        lemma_drop_first_nonneg(dts);
        lemma_total_nonneg(rest);
        let p1 = stepped(p, d0);
        lemma_stepped_inv(p, d0);
        if p1.is_alive {
            lemma_death_exactly_at_lifetime(p1, rest);
        } else {
            lemma_dead_slot_is_fixed(p1, rest);
        }
    }
}

/// Law: a surviving particle under constant velocities moves by
/// `velocity * total(dts)` per axis and turns by `vel_angular * total(dts)`
/// wrapped into a turn — the same as one frame of the whole elapsed time —
/// whenever each frame's products are whole numbers of thousandths.
pub proof fn lemma_constant_velocity_linearity(p: ParticleModel, dts: Seq<int>)
    requires
        p.inv(),
        p.is_alive,
        all_nonneg(dts),
        p.lifetime > total(dts),
        all_scale_exact(p.vel_x, dts),
        all_scale_exact(p.vel_y, dts),
        all_scale_exact(p.vel_angular, dts),
    ensures
        (p.vel_x * total(dts)) % 1000 == 0,
        (p.vel_y * total(dts)) % 1000 == 0,
        (p.vel_angular * total(dts)) % 1000 == 0,
        stepped_many(p, dts).pos_x == p.pos_x + (p.vel_x * total(dts)) / 1000,
        stepped_many(p, dts).pos_y == p.pos_y + (p.vel_y * total(dts)) / 1000,
        stepped_many(p, dts).rotation
            == (p.rotation + (p.vel_angular * total(dts)) / 1000) % (FULL_TURN as int),
    decreases dts.len(),
{
    let ft = FULL_TURN as int;
    if dts.len() == 0 {
        assert(p.vel_x * 0 == 0) by (nonlinear_arith);
        assert(p.vel_y * 0 == 0) by (nonlinear_arith);
        assert(p.vel_angular * 0 == 0) by (nonlinear_arith);
        vstd::arithmetic::div_mod::lemma_div_of0(1000);
        vstd::arithmetic::div_mod::lemma_small_mod(0nat, 1000nat);
        vstd::arithmetic::div_mod::lemma_small_mod(p.rotation as nat, ft as nat);
    } else {
        let d0 = dts[0];
        let rest = dts.drop_first();
        assert((p.vel_x * d0) % 1000 == 0);
        assert((p.vel_y * d0) % 1000 == 0);
        assert((p.vel_angular * d0) % 1000 == 0);
        lemma_drop_first_nonneg(dts);
        lemma_drop_first_scale_exact(p.vel_x, dts);
        lemma_drop_first_scale_exact(p.vel_y, dts);
        lemma_drop_first_scale_exact(p.vel_angular, dts);
        lemma_total_nonneg(rest);

        let p1 = stepped(p, d0);
        lemma_stepped_inv(p, d0);
        lemma_div_milli_exact(p.vel_x * d0);
        lemma_div_milli_exact(p.vel_y * d0);
        lemma_div_milli_exact(p.vel_angular * d0);

        lemma_constant_velocity_linearity(p1, rest);

        vstd::arithmetic::mul::lemma_mul_is_distributive_add(p.vel_x, d0, total(rest));
        vstd::arithmetic::mul::lemma_mul_is_distributive_add(p.vel_y, d0, total(rest));
        vstd::arithmetic::mul::lemma_mul_is_distributive_add(p.vel_angular, d0, total(rest));
        lemma_div_milli_add_exact(p.vel_x * d0, p.vel_x * total(rest));
        lemma_div_milli_add_exact(p.vel_y * d0, p.vel_y * total(rest));
        lemma_div_milli_add_exact(p.vel_angular * d0, p.vel_angular * total(rest));

        let turned0 = (p.vel_angular * d0) / 1000;
        let turned_rest = (p.vel_angular * total(rest)) / 1000;
        vstd::arithmetic::div_mod::lemma_add_mod_noop_right(
            turned_rest, p.rotation + turned0, ft);
        assert(stepped_many(p, dts).rotation
            == (turned_rest + (p.rotation + turned0) % ft) % ft);
    }
}

/// Law: fading never begins before the fade window: as long as the remaining
/// lifetime has not dropped below the fade threshold, a run of frames leaves
/// the alpha untouched.
pub proof fn lemma_no_fade_before_window(p: ParticleModel, dts: Seq<int>)
    requires
        p.inv(),
        p.is_alive,
        all_nonneg(dts),
        p.lifetime - total(dts) >= p.fade_threshold,
    ensures
        stepped_many(p, dts).alpha == p.alpha,
    decreases dts.len(),
{
    if dts.len() > 0 {
        let d0 = dts[0];
        let rest = dts.drop_first();
        assert(d0 >= 0);
        lemma_drop_first_nonneg(dts);
        lemma_total_nonneg(rest);
        let p1 = stepped(p, d0);
        lemma_stepped_inv(p, d0);
        if p1.is_alive {
            lemma_no_fade_before_window(p1, rest);
        } else {
            lemma_dead_slot_is_fixed(p1, rest);
        }
    }
}

/// Law: once inside the fade window, a surviving particle loses alpha at
/// exactly its fade rate — a run of frames costs `fade_rate * total / 1000`
/// of alpha — as long as the fade has that much opacity left to spend and
/// each frame's loss is a whole number of thousandths.
pub proof fn lemma_fade_linearity(p: ParticleModel, dts: Seq<int>)
    requires
        p.inv(),
        p.is_alive,
        p.fade_enabled,
        all_nonneg(dts),
        p.lifetime > total(dts),
        p.lifetime <= p.fade_threshold,
        all_scale_exact(p.fade_rate, dts),
        p.alpha - (p.fade_rate * total(dts)) / 1000 >= 0,
    ensures
        stepped_many(p, dts).alpha == p.alpha - (p.fade_rate * total(dts)) / 1000,
    decreases dts.len(),
{
    let rate = p.fade_rate;
    lemma_rate_total_exact(rate, dts);
    if dts.len() == 0 {
        assert(rate * 0 == 0) by (nonlinear_arith);
        vstd::arithmetic::div_mod::lemma_div_of0(1000);
    } else {
        let d0 = dts[0];
        let rest = dts.drop_first();
        assert(d0 >= 0);
        assert((rate * d0) % 1000 == 0);
        lemma_drop_first_nonneg(dts);
        lemma_drop_first_scale_exact(rate, dts);
        lemma_total_nonneg(rest);

        // the run's loss splits into this frame's and the rest's
        assert((rate * total(rest)) % 1000 == 0) by {
            assert forall|i: int| 0 <= i < rest.len()
                implies #[trigger] ((rate * rest[i]) % 1000) == 0 by {
                assert((rate * dts[i + 1]) % 1000 == 0);
            }
            lemma_rate_total_exact(rate, rest);
        }
        vstd::arithmetic::mul::lemma_mul_is_distributive_add(rate, d0, total(rest));
        lemma_div_milli_add_exact(rate * d0, rate * total(rest));
        lemma_div_milli_exact(rate * d0);
        lemma_div_milli_exact(rate * total(rest));
        lemma_div_milli_exact(rate * total(dts));

        // this frame's loss is non-negative and no more than the whole run's
        assert(rate * d0 >= 0 && rate * d0 <= rate * total(dts)) by (nonlinear_arith)
            requires
                rate >= 0,
                d0 >= 0,
                d0 <= total(dts),
        ;
        vstd::arithmetic::div_mod::lemma_div_pos_is_pos(rate * d0, 1000);
        vstd::arithmetic::div_mod::lemma_div_is_ordered(rate * d0, rate * total(dts), 1000);

        let p1 = stepped(p, d0);
        lemma_stepped_inv(p, d0);
        assert(p1.alpha == p.alpha - (rate * d0) / 1000);
        lemma_fade_linearity(p1, rest);
    }
}

/// A whole run's product is a whole number of thousandths when each frame's
/// product is.
pub proof fn lemma_rate_total_exact(v: int, dts: Seq<int>)
    requires
        all_scale_exact(v, dts),
    ensures
        (v * total(dts)) % 1000 == 0,
    decreases dts.len(),
{
    if dts.len() == 0 {
        assert(v * 0 == 0) by (nonlinear_arith);
    } else {
        let d0 = dts[0];
        let rest = dts.drop_first();
        assert((v * d0) % 1000 == 0);
        lemma_drop_first_scale_exact(v, dts);
        lemma_rate_total_exact(v, rest);
        vstd::arithmetic::mul::lemma_mul_is_distributive_add(v, d0, total(rest));
        lemma_div_milli_add_exact(v * d0, v * total(rest));
    }
}

/// Whether ring position `i` is one of the `count` positions written when
/// the cursor starts at `cursor` and the ring wraps at `len`.
pub open spec fn ring_written(cursor: int, count: nat, len: int, i: int) -> bool {
    exists|k: int| 0 <= k < count && #[trigger] ((cursor + k) % len) == i
}

/// Law: a burst of `count` emissions overwrites exactly the `count`
/// consecutive ring positions starting at the cursor — each slot is replaced
/// whether or not it was still alive — and advances the cursor by `count`
/// around the ring; once `count` reaches the capacity, every slot holds the
/// fresh emission.
pub proof fn lemma_emit_ring(s: StateModel, count: nat, t: TypeModel, x: int, y: int)
    requires
        1 <= s.pool.len(),
        0 <= s.emitting_index < s.pool.len(),
    ensures
        emitted_state_n(s, count, t, x, y).pool.len() == s.pool.len(),
        emitted_state_n(s, count, t, x, y).emitting_index
            == (s.emitting_index + count) % (s.pool.len() as int),
        forall|i: int|
            0 <= i < s.pool.len()
                && ring_written(s.emitting_index, count, s.pool.len() as int, i)
                ==> emitted_state_n(s, count, t, x, y).pool[i] == emitted(t, x, y),
        forall|i: int|
            0 <= i < s.pool.len()
                && !ring_written(s.emitting_index, count, s.pool.len() as int, i)
                ==> emitted_state_n(s, count, t, x, y).pool[i] == s.pool[i],
        count >= s.pool.len()
            ==> forall|i: int|
                0 <= i < s.pool.len()
                    ==> emitted_state_n(s, count, t, x, y).pool[i] == emitted(t, x, y),
    decreases count,
{
    let len = s.pool.len() as int;
    let c = s.emitting_index;
    let fresh = emitted(t, x, y);
    let result = emitted_state_n(s, count, t, x, y);
    vstd::arithmetic::div_mod::lemma_small_mod(c as nat, len as nat);
    if count == 0 {
    } else {
        let s1 = emitted_state(s, t, x, y);
        let c1 = s1.emitting_index;
        if c + 1 == len {
            vstd::arithmetic::div_mod::lemma_mod_self_0(len);
        } else {
            vstd::arithmetic::div_mod::lemma_small_mod((c + 1) as nat, len as nat);
        }
        assert(c1 == (c + 1) % len);
        assert(result == emitted_state_n(s1, (count - 1) as nat, t, x, y));
        assert(s1.pool.len() == s.pool.len());
        lemma_emit_ring(s1, (count - 1) as nat, t, x, y);

        // the cursor lands `count` steps around the ring
        vstd::arithmetic::div_mod::lemma_add_mod_noop_right(count - 1, c + 1, len);
        assert(result.emitting_index == (c + count) % len);

        // every written position holds the fresh particle
        assert forall|i: int| 0 <= i < len && ring_written(c, count, len, i)
            implies result.pool[i] == fresh by {
            let k = choose|k: int| 0 <= k < count && #[trigger] ((c + k) % len) == i;
            if ring_written(c1, (count - 1) as nat, len, i) {
                assert(emitted_state_n(s1, (count - 1) as nat, t, x, y).pool[i] == fresh);
            } else {
                // nothing later touches i, so it still holds this emission,
                // which means i is the cursor's own slot
                if k > 0 {
                    vstd::arithmetic::div_mod::lemma_add_mod_noop_right(k - 1, c + 1, len);
                    assert((c1 + (k - 1)) % len == (c + k) % len);
                    assert(ring_written(c1, (count - 1) as nat, len, i));
                }
                assert(i == c);
                assert(emitted_state_n(s1, (count - 1) as nat, t, x, y).pool[i]
                    == s1.pool[i]);
                assert(s1.pool[c] == fresh);
            }
        }

        // every unwritten position is untouched
        assert forall|i: int| 0 <= i < len && !ring_written(c, count, len, i)
            implies result.pool[i] == s.pool[i] by {
            if ring_written(c1, (count - 1) as nat, len, i) {
                let k2 = choose|k2: int| 0 <= k2 < count - 1 && #[trigger] ((c1 + k2) % len) == i;
                vstd::arithmetic::div_mod::lemma_add_mod_noop_right(k2, c + 1, len);
                assert((c + (k2 + 1)) % len == i);
                assert(ring_written(c, count, len, i));
            }
            assert((c + 0) % len == c);
            assert(i != c);
            assert(emitted_state_n(s1, (count - 1) as nat, t, x, y).pool[i] == s1.pool[i]);
            assert(s1.pool[i] == s.pool[i]);
        }

        // a burst of at least the capacity overwrites everything
        if count >= len {
            assert forall|i: int| 0 <= i < len implies ring_written(c, count, len, i) by {
                let k = (i - c) % len;
                vstd::arithmetic::div_mod::lemma_mod_division_less_than_divisor(i - c, len);
                vstd::arithmetic::div_mod::lemma_add_mod_noop_right(c, i - c, len);
                vstd::arithmetic::div_mod::lemma_small_mod(i as nat, len as nat);
                assert((c + k) % len == i);
            }
        }
    }
}

} // verus!
