//! The per-tick systems: the Velocity-Verlet integrator, the two-pass
//! contact resolver, and the input-to-velocity adapter.
//!
//! A tick runs `PlayerInput::apply` (outside callers decide when), then
//! `Physics::step`, which integrates every body and resolves every contact.
//! Every function is specified against the integer model in `spec_integrate`,
//! `spec_cache_sum` and `spec_apply`.

use crate::components::{
    cache_zero, solid_wf, CacheV, CollisionCache, Player, Position, Solid, SolidV,
};
use crate::shape::{contact, shape_wf, spec_contact, ContactV, Shape, ShapeV, GEOM_LIMIT};
use crate::util::{
    abs, abs_i64, dot_div_trunc, lemma_div_trunc_le_magnitude, lemma_div_trunc_shrinks,
    lemma_dot_div_bounded, lemma_lengthen_no_reverse, lemma_mul_bounds, lemma_mul_div_bounded,
    mul_div_trunc, sign, spec_div_trunc, spec_dot_div, spec_lengthen, spec_mul_div, v2, v2_add,
    v2_in_range, v2_sub, vector_lengthen, Vec2, SCALE, V2,
};
use vstd::arithmetic::div_mod::lemma_div_multiples_vanish;
use vstd::prelude::*;

verus! {

/// Ambient friction, applied once per tick to every dynamic body:
/// 20 pixels per second squared, in subpixel units.
pub const AIR_FRICTION: i64 = 72_000;

/// Gravity added to accelerating bodies each step: 600 pixels per second
/// squared, in subpixel units (the world is y-down).
pub const GRAVITY: i64 = 2_160_000;

/// Bound on every body's position, velocities, accelerations, extents and
/// friction at the start of a tick.
pub const WORLD_LIMIT: i64 = 0x1_0000_0000;

/// Bound the integrator guarantees after a step under `WORLD_LIMIT` inputs;
/// what the resolver accepts.
pub const MID_LIMIT: i64 = 0x4_0000_0000;

/// Most bodies a store may hold in one tick.
pub const MAX_BODIES: usize = 1024;

/// Mathematical model of one body: its position and its movement state.
pub ghost struct BodyV {
    pub pos: V2,
    pub solid: SolidV,
}

/// One Velocity-Verlet step of a single body:
/// gravity folds into the acceleration, the position advances by
/// `v dt + a dt^2 / 2`, the velocity by the average of the old and new
/// accelerations times `dt`, and the acceleration resets to zero.
pub open spec fn spec_integrate(pos: V2, s: SolidV, dt: int) -> BodyV {
    let acc = if s.gravity {
        v2(s.acceleration.x, s.acceleration.y + GRAVITY)
    } else {
        s.acceleration
    };
    let new_pos = v2(
        pos.x + spec_mul_div(s.velocity.x, dt, SCALE as int) + spec_div_trunc(
            acc.x * dt * dt,
            2 * (SCALE as int) * (SCALE as int),
        ),
        pos.y + spec_mul_div(s.velocity.y, dt, SCALE as int) + spec_div_trunc(
            acc.y * dt * dt,
            2 * (SCALE as int) * (SCALE as int),
        ),
    );
    let new_vel = v2(
        s.velocity.x + spec_mul_div(acc.x + s.old_acceleration.x, dt, 2 * (SCALE as int)),
        s.velocity.y + spec_mul_div(acc.y + s.old_acceleration.y, dt, 2 * (SCALE as int)),
    );
    BodyV {
        pos: new_pos,
        solid: SolidV {
            id: s.id,
            typ: s.typ,
            check_movement: s.check_movement,
            gravity: s.gravity,
            friction: s.friction,
            shape: s.shape,
            velocity: new_vel,
            acceleration: v2(0, 0),
            old_position: pos,
            old_velocity: s.velocity,
            old_acceleration: acc,
        },
    }
}

/// `a * dt * dt / (2 * SCALE * SCALE)`, the half-acceleration displacement;
/// never larger in magnitude than `a` itself while `dt <= SCALE`.
fn quad_term(a: i64, dt: i64) -> (r: i64)
    requires
        0 < dt <= SCALE,
        -0x7_0000_0000 <= a <= 0x7_0000_0000,
    ensures
        r == spec_div_trunc(a as int * dt * dt, 2 * (SCALE as int) * (SCALE as int)),
        abs(r as int) <= abs(a as int),
{
    proof {
        lemma_mul_bounds(a as int, dt as int, 0x7_0000_0000, 3600);
        lemma_mul_bounds(a as int * dt, dt as int, (0x7_0000_0000 * 3600) as int, 3600);
        assert(abs(a as int * dt * dt) <= abs(a as int) * (2 * 3600 * 3600)) by (nonlinear_arith)
            requires
                0 < dt <= 3600,
        ;
        lemma_div_trunc_le_magnitude(
            a as int * dt * dt,
            abs(a as int) * (2 * 3600 * 3600),
            (2 * 3600 * 3600) as int,
        );
        lemma_div_multiples_vanish(abs(a as int), (2 * 3600 * 3600) as int);
        assert(abs(a as int) * (2 * 3600 * 3600) == (2 * 3600 * 3600) * abs(a as int))
            by (nonlinear_arith);
        assert(SCALE == 3600);
    }
    let p: i128 = (a as i128) * (dt as i128) * (dt as i128);
    let den: u128 = 2 * (SCALE as u128) * (SCALE as u128);
    if p >= 0 {
        let q: u128 = (p as u128) / den;
        q as i64
    } else {
        let m: u128 = ((-p) as u128) / den;
        -(m as i64)
    }
}

/// One Velocity-Verlet step of one body, as `spec_integrate` describes.
/// Also the only writer of `old_position`, `old_velocity` and
/// `old_acceleration`, and the only reader of the incoming `acceleration`,
/// which it resets to zero.
pub fn integrate_body(position: &mut Position, solid: &mut Solid, delta_time: i64)
    requires
        v2_in_range(old(position)@, WORLD_LIMIT as int),
        solid_wf(old(solid)@, WORLD_LIMIT as int),
        0 < delta_time <= SCALE,
    ensures
        final(position)@ == spec_integrate(old(position)@, old(solid)@, delta_time as int).pos,
        final(solid)@ == spec_integrate(old(position)@, old(solid)@, delta_time as int).solid,
        v2_in_range(final(position)@, MID_LIMIT as int),
        solid_wf(final(solid)@, MID_LIMIT as int),
{
    let ghost pre_pos = position@;
    let ghost pre_solid = solid@;
    if solid.gravity {
        solid.acceleration.y = solid.acceleration.y + GRAVITY;
    }
    let acc = solid.acceleration;
    proof {
        assert(v2_in_range(acc@, WORLD_LIMIT as int + GRAVITY as int));
        lemma_mul_div_bounded(delta_time as int, pre_solid.velocity.x, SCALE as int);
        lemma_mul_div_bounded(delta_time as int, pre_solid.velocity.y, SCALE as int);
        assert(pre_solid.velocity.x * delta_time == delta_time * pre_solid.velocity.x
            && pre_solid.velocity.y * delta_time == delta_time * pre_solid.velocity.y)
            by (nonlinear_arith);
    }
    solid.old_position = position.0;
    let vel_dx = mul_div_trunc(solid.velocity.x, delta_time, SCALE);
    let vel_dy = mul_div_trunc(solid.velocity.y, delta_time, SCALE);
    let acc_dx = quad_term(acc.x, delta_time);
    let acc_dy = quad_term(acc.y, delta_time);
    position.0.x = position.0.x + vel_dx + acc_dx;
    position.0.y = position.0.y + vel_dy + acc_dy;
    solid.old_velocity = solid.velocity;
    let sum_ax = acc.x + solid.old_acceleration.x;
    let sum_ay = acc.y + solid.old_acceleration.y;
    proof {
        lemma_mul_div_bounded(delta_time as int, sum_ax as int, 2 * SCALE as int);
        lemma_mul_div_bounded(delta_time as int, sum_ay as int, 2 * SCALE as int);
        assert(sum_ax as int * delta_time == delta_time * sum_ax && sum_ay as int * delta_time
            == delta_time * sum_ay) by (nonlinear_arith);
    }
    let half_vx = mul_div_trunc(sum_ax, delta_time, 2 * SCALE);
    let half_vy = mul_div_trunc(sum_ay, delta_time, 2 * SCALE);
    solid.velocity.x = solid.velocity.x + half_vx;
    solid.velocity.y = solid.velocity.y + half_vy;
    solid.old_acceleration = acc;
    solid.acceleration.x = 0;
    solid.acceleration.y = 0;
}

/// Integrate every body in the store, per `spec_integrate`.
pub fn integrate_all(positions: &mut Vec<Position>, solids: &mut Vec<Solid>, delta_time: i64)
    requires
        old(positions)@.len() == old(solids)@.len(),
        0 < delta_time <= SCALE,
        forall|i: int|
            0 <= i < old(positions)@.len() ==> v2_in_range(
                #[trigger] old(positions)@[i]@,
                WORLD_LIMIT as int,
            ),
        forall|i: int|
            0 <= i < old(solids)@.len() ==> solid_wf(#[trigger] old(solids)@[i]@, WORLD_LIMIT as int),
    ensures
        final(positions)@.len() == old(positions)@.len(),
        final(solids)@.len() == old(solids)@.len(),
        forall|i: int|
            0 <= i < old(positions)@.len() ==> #[trigger] final(positions)@[i]@ == spec_integrate(
                old(positions)@[i]@,
                old(solids)@[i]@,
                delta_time as int,
            ).pos,
        forall|i: int|
            0 <= i < old(solids)@.len() ==> #[trigger] final(solids)@[i]@ == spec_integrate(
                old(positions)@[i]@,
                old(solids)@[i]@,
                delta_time as int,
            ).solid,
        forall|i: int|
            0 <= i < old(positions)@.len() ==> v2_in_range(
                #[trigger] final(positions)@[i]@,
                MID_LIMIT as int,
            ),
        forall|i: int|
            0 <= i < old(solids)@.len() ==> solid_wf(#[trigger] final(solids)@[i]@, MID_LIMIT as int),
{
    let n = positions.len();
    let mut i: usize = 0;
    while i < n
        invariant
            n == old(positions)@.len(),
            n == old(solids)@.len(),
            positions@.len() == n,
            solids@.len() == n,
            i <= n,
            0 < delta_time <= SCALE,
            forall|j: int| i <= j < n ==> #[trigger] positions@[j] == old(positions)@[j],
            forall|j: int| i <= j < n ==> #[trigger] solids@[j] == old(solids)@[j],
            forall|j: int|
                0 <= j < n ==> v2_in_range(#[trigger] old(positions)@[j]@, WORLD_LIMIT as int),
            forall|j: int|
                0 <= j < n ==> solid_wf(#[trigger] old(solids)@[j]@, WORLD_LIMIT as int),
            forall|j: int|
                0 <= j < i ==> #[trigger] positions@[j]@ == spec_integrate(
                    old(positions)@[j]@,
                    old(solids)@[j]@,
                    delta_time as int,
                ).pos,
            forall|j: int|
                0 <= j < i ==> #[trigger] solids@[j]@ == spec_integrate(
                    old(positions)@[j]@,
                    old(solids)@[j]@,
                    delta_time as int,
                ).solid,
            forall|j: int| 0 <= j < i ==> v2_in_range(#[trigger] positions@[j]@, MID_LIMIT as int),
            forall|j: int| 0 <= j < i ==> solid_wf(#[trigger] solids@[j]@, MID_LIMIT as int),
        decreases n - i,
    {
        let mut p = positions[i];
        let mut s = solids[i];
        proof {
            assert(positions@[i as int] == old(positions)@[i as int]);
            assert(solids@[i as int] == old(solids)@[i as int]);
        }
        integrate_body(&mut p, &mut s, delta_time);
        positions[i] = p;
        solids[i] = s;
        i = i + 1;
    }
}

/// Per-contact contribution bound under `MID_LIMIT` inputs.
pub const PAIR_LIMIT: i64 = 0x1000_0000_0000;

/// Bound on an accumulated cache: `MAX_BODIES` contributions of
/// `PAIR_LIMIT` each.
pub const CACHE_LIMIT: i64 = 0x40_0000_0000_0000;

/// Numerator of the position-split ratio `k`: the share of body A, by how
/// much its velocity contributed to the contact.  When neither body moves
/// along the normal the ratio is one.
pub open spec fn spec_k_num(a_proj: int, b_proj: int) -> int {
    if a_proj == 0 && b_proj == 0 {
        1
    } else {
        a_proj
    }
}

/// Denominator of the position-split ratio `k`.
pub open spec fn spec_k_den(a_proj: int, b_proj: int) -> int {
    if a_proj == 0 && b_proj == 0 {
        1
    } else {
        a_proj + b_proj
    }
}

/// A's share of the penetration depth: `k * depth`, rounded down.
pub open spec fn spec_position_share(a_proj: int, b_proj: int, depth: int) -> int {
    spec_k_num(a_proj, b_proj) * depth / spec_k_den(a_proj, b_proj)
}

/// Swapping the two bodies of a contact produces complementary splits: the
/// two ratios `k` share a denominator and their numerators add up to it, so
/// `k(A, B) + k(B, A) == 1` exactly; when neither body moves along the
/// normal, each side's ratio is one by itself.
pub proof fn lemma_split_symmetry(a_proj: int, b_proj: int)
    requires
        0 <= a_proj,
        0 <= b_proj,
    ensures
        spec_k_den(b_proj, a_proj) == spec_k_den(a_proj, b_proj),
        a_proj != 0 || b_proj != 0 ==> spec_k_num(a_proj, b_proj) + spec_k_num(b_proj, a_proj)
            == spec_k_den(a_proj, b_proj),
        a_proj == 0 && b_proj == 0 ==> spec_k_num(a_proj, b_proj) == spec_k_den(a_proj, b_proj)
            && spec_k_num(b_proj, a_proj) == spec_k_den(b_proj, a_proj),
{
}

/// A's share of the depth, `k * depth` rounded down; never exceeds the
/// depth, and takes all of it when only A moves along the normal.
pub fn position_share(a_proj: i64, b_proj: i64, depth: i64) -> (kd: i64)
    requires
        0 <= a_proj,
        0 <= b_proj,
        0 <= depth,
        a_proj + b_proj <= 0x7fff_ffff_ffff_ffff,
    ensures
        kd == spec_position_share(a_proj as int, b_proj as int, depth as int),
        0 <= kd <= depth,
{
    if a_proj == 0 && b_proj == 0 {
        proof {
            lemma_div_multiples_vanish(depth as int, 1);
        }
        depth
    } else {
        let den: i64 = a_proj + b_proj;
        proof {
            lemma_mul_bounds(a_proj as int, depth as int, 0x7fff_ffff_ffff_ffff, 0x7fff_ffff_ffff_ffff);
            assert(a_proj as int * depth <= den as int * depth) by (nonlinear_arith)
                requires
                    0 <= a_proj,
                    0 <= depth,
                    a_proj <= den,
            ;
            assert(a_proj as int * depth >= 0) by (nonlinear_arith)
                requires
                    0 <= a_proj,
                    0 <= depth,
            ;
            vstd::arithmetic::div_mod::lemma_div_is_ordered(
                a_proj as int * depth,
                den as int * depth,
                den as int,
            );
            lemma_div_multiples_vanish(depth as int, den as int);
            assert(den as int * depth == depth * den) by (nonlinear_arith);
            vstd::arithmetic::div_mod::lemma_div_pos_is_pos(a_proj as int * depth, den as int);
        }
        let q: u128 = ((a_proj as u128) * (depth as u128)) / (den as u128);
        q as i64
    }
}

/// Body `a`'s positional pushback out of a contact: its velocity-weighted
/// share of the depth, directed against the contact normal.
pub open spec fn spec_push(a: BodyV, b: BodyV, c: ContactV) -> V2 {
    let a_proj = abs(spec_dot_div(a.solid.velocity, c.normal, SCALE as int));
    let b_proj = abs(spec_dot_div(b.solid.velocity, c.normal, SCALE as int));
    let kd = spec_position_share(a_proj, b_proj, c.depth);
    v2(-spec_mul_div(c.normal.x, kd, SCALE as int), -spec_mul_div(c.normal.y, kd, SCALE as int))
}

/// The resolver's contribution from one found contact of depth above zero:
/// the friction sum, the removal of the closing velocity along the normal,
/// A's share of the depth pushed back against the normal, and — when B is
/// a moving static — B's displacement this step, carried over to A.
pub open spec fn spec_contact_term(a: BodyV, b: BodyV, c: ContactV) -> CacheV {
    let w = spec_dot_div(v2_sub(a.solid.velocity, b.solid.velocity), c.normal, SCALE as int);
    let push = spec_push(a, b, c);
    let carry = if !b.solid.check_movement {
        v2_sub(b.pos, b.solid.old_position)
    } else {
        v2(0, 0)
    };
    CacheV {
        position_resolve: v2_add(push, carry),
        velocity_resolve: v2(
            -spec_mul_div(c.normal.x, w, SCALE as int),
            -spec_mul_div(c.normal.y, w, SCALE as int),
        ),
        friction_total: a.solid.friction + b.solid.friction,
    }
}

/// What body `b` adds to body `a`'s cache: nothing when `b` is `a` itself
/// (by identity), nothing without a contact of depth above zero, and the
/// contact term otherwise.
pub open spec fn spec_pair_term(a: BodyV, b: BodyV) -> CacheV {
    if b.solid.id == a.solid.id {
        cache_zero()
    } else {
        match spec_contact(a.solid.shape, a.pos, b.solid.shape, b.pos, 0) {
            Option::Some(c) => if c.depth == 0 {
                cache_zero()
            } else {
                spec_contact_term(a, b, c)
            },
            Option::None => cache_zero(),
        }
    }
}

pub open spec fn cache_add(x: CacheV, y: CacheV) -> CacheV {
    CacheV {
        position_resolve: v2_add(x.position_resolve, y.position_resolve),
        velocity_resolve: v2_add(x.velocity_resolve, y.velocity_resolve),
        friction_total: x.friction_total + y.friction_total,
    }
}

/// Body `a`'s aggregated cache over a pass of the store: the sum of every
/// other body's contribution, in store order.
pub open spec fn spec_cache_sum(a: BodyV, others: Seq<BodyV>) -> CacheV
    decreases others.len(),
{
    if others.len() == 0 {
        cache_zero()
    } else {
        cache_add(spec_cache_sum(a, others.drop_last()), spec_pair_term(a, others.last()))
    }
}

/// The cache the resolver's first pass leaves for body `i`: its aggregate
/// over the whole store if it is dynamic, zero otherwise.
pub open spec fn spec_resolve_cache(i: int, mids: Seq<BodyV>) -> CacheV {
    if mids[i].solid.check_movement {
        spec_cache_sum(mids[i], mids)
    } else {
        cache_zero()
    }
}

/// The resolver's second pass on one dynamic body: the position moves by
/// the accumulated correction, and the corrected velocity loses
/// `(AIR_FRICTION + friction_total) * dt` of its length, without crossing
/// zero.  A non-dynamic body is left exactly as it was.
pub open spec fn spec_apply(mid: BodyV, c: CacheV, dt: int) -> BodyV {
    if mid.solid.check_movement {
        BodyV {
            pos: v2_add(mid.pos, c.position_resolve),
            solid: SolidV {
                id: mid.solid.id,
                typ: mid.solid.typ,
                check_movement: mid.solid.check_movement,
                gravity: mid.solid.gravity,
                friction: mid.solid.friction,
                shape: mid.solid.shape,
                velocity: spec_lengthen(
                    v2_add(mid.solid.velocity, c.velocity_resolve),
                    -spec_mul_div(AIR_FRICTION as int + c.friction_total, dt, SCALE as int),
                ),
                acceleration: mid.solid.acceleration,
                old_position: mid.solid.old_position,
                old_velocity: mid.solid.old_velocity,
                old_acceleration: mid.solid.old_acceleration,
            },
        }
    } else {
        mid
    }
}

/// The store as a sequence of body models.
pub open spec fn mids_of(ps: Seq<Position>, ss: Seq<Solid>) -> Seq<BodyV> {
    Seq::new(ps.len(), |i: int| BodyV { pos: ps[i]@, solid: ss[i]@ })
}

/// Every field of an accumulated cache within `CACHE_LIMIT`, friction
/// nonnegative.
pub open spec fn cache_in_limit(c: CacheV) -> bool {
    &&& v2_in_range(c.position_resolve, CACHE_LIMIT as int)
    &&& v2_in_range(c.velocity_resolve, CACHE_LIMIT as int)
    &&& 0 <= c.friction_total <= CACHE_LIMIT as int
}

/// The two-pass contact resolver.  Pass one rebuilds every dynamic body's
/// cache from zero: for each other body in contact with it (depth above
/// zero), it sums the contact's friction, the removal of the closing
/// velocity along the normal, the body's velocity-weighted share of the
/// depth pushed back against the normal, and the displacement of moving
/// statics underneath it.  Pass two applies the accumulated corrections and
/// the friction deceleration to each dynamic body.  Bodies with
/// `check_movement` false are never written.
pub fn resolve(
    positions: &mut Vec<Position>,
    solids: &mut Vec<Solid>,
    caches: &mut Vec<CollisionCache>,
    delta_time: i64,
)
    requires
        old(positions)@.len() == old(solids)@.len(),
        old(positions)@.len() == old(caches)@.len(),
        old(positions)@.len() <= MAX_BODIES,
        0 < delta_time <= SCALE,
        forall|i: int|
            0 <= i < old(positions)@.len() ==> v2_in_range(
                #[trigger] old(positions)@[i]@,
                MID_LIMIT as int,
            ),
        forall|i: int|
            0 <= i < old(solids)@.len() ==> solid_wf(#[trigger] old(solids)@[i]@, MID_LIMIT as int),
    ensures
        final(positions)@.len() == old(positions)@.len(),
        final(solids)@.len() == old(solids)@.len(),
        final(caches)@.len() == old(caches)@.len(),
        forall|i: int|
            0 <= i < old(caches)@.len() ==> #[trigger] final(caches)@[i]@ == spec_resolve_cache(
                i,
                mids_of(old(positions)@, old(solids)@),
            ),
        forall|i: int|
            0 <= i < old(positions)@.len() ==> #[trigger] final(positions)@[i]@ == spec_apply(
                mids_of(old(positions)@, old(solids)@)[i],
                spec_resolve_cache(i, mids_of(old(positions)@, old(solids)@)),
                delta_time as int,
            ).pos,
        forall|i: int|
            0 <= i < old(solids)@.len() ==> #[trigger] final(solids)@[i]@ == spec_apply(
                mids_of(old(positions)@, old(solids)@)[i],
                spec_resolve_cache(i, mids_of(old(positions)@, old(solids)@)),
                delta_time as int,
            ).solid,
{
    let ghost mids = mids_of(old(positions)@, old(solids)@);
    let n = positions.len();
    // Pass 1 — aggregation.
    let mut i: usize = 0;
    while i < n
        invariant
            n == old(positions)@.len(),
            n == old(solids)@.len(),
            n == old(caches)@.len(),
            n <= MAX_BODIES,
            positions@ == old(positions)@,
            solids@ == old(solids)@,
            caches@.len() == n,
            i <= n,
            0 < delta_time <= SCALE,
            mids == mids_of(old(positions)@, old(solids)@),
            forall|k: int|
                0 <= k < n ==> v2_in_range(#[trigger] old(positions)@[k]@, MID_LIMIT as int),
            forall|k: int|
                0 <= k < n ==> solid_wf(#[trigger] old(solids)@[k]@, MID_LIMIT as int),
            forall|k: int|
                0 <= k < i ==> #[trigger] caches@[k]@ == spec_resolve_cache(k, mids),
            forall|k: int| 0 <= k < i ==> cache_in_limit(#[trigger] caches@[k]@),
        decreases n - i,
    {
        let a_pos = positions[i];
        let a_solid = solids[i];
        proof {
            assert(mids[i as int] == (BodyV { pos: a_pos@, solid: a_solid@ }));
        }
        if a_solid.check_movement {
            let mut px: i64 = 0;
            let mut py: i64 = 0;
            let mut vx: i64 = 0;
            let mut vy: i64 = 0;
            let mut ft: i64 = 0;
            let mut j: usize = 0;
            while j < n
                invariant
                    n == old(positions)@.len(),
                    n == old(solids)@.len(),
                    n <= MAX_BODIES,
                    positions@ == old(positions)@,
                    solids@ == old(solids)@,
                    i < n,
                    j <= n,
                    mids == mids_of(old(positions)@, old(solids)@),
                    forall|k: int|
                        0 <= k < n ==> v2_in_range(#[trigger] old(positions)@[k]@, MID_LIMIT as int),
                    forall|k: int|
                        0 <= k < n ==> solid_wf(#[trigger] old(solids)@[k]@, MID_LIMIT as int),
                    a_pos@ == mids[i as int].pos,
                    a_solid@ == mids[i as int].solid,
                    px == spec_cache_sum(mids[i as int], mids.take(j as int)).position_resolve.x,
                    py == spec_cache_sum(mids[i as int], mids.take(j as int)).position_resolve.y,
                    vx == spec_cache_sum(mids[i as int], mids.take(j as int)).velocity_resolve.x,
                    vy == spec_cache_sum(mids[i as int], mids.take(j as int)).velocity_resolve.y,
                    ft == spec_cache_sum(mids[i as int], mids.take(j as int)).friction_total,
                    abs(px as int) <= j * PAIR_LIMIT as int,
                    abs(py as int) <= j * PAIR_LIMIT as int,
                    abs(vx as int) <= j * PAIR_LIMIT as int,
                    abs(vy as int) <= j * PAIR_LIMIT as int,
                    0 <= ft <= j * PAIR_LIMIT as int,
                decreases n - j,
            {
                let b_pos = positions[j];
                let b_solid = solids[j];
                let ghost sum_pre = spec_cache_sum(mids[i as int], mids.take(j as int));
                let ghost term = spec_pair_term(mids[i as int], mids[j as int]);
                proof {
                    assert(mids[j as int] == (BodyV { pos: b_pos@, solid: b_solid@ }));
                    assert(mids.take(j as int + 1).drop_last() =~= mids.take(j as int));
                    assert(mids.take(j as int + 1).last() == mids[j as int]);
                    assert(spec_cache_sum(mids[i as int], mids.take(j as int + 1)) == cache_add(
                        sum_pre,
                        term,
                    ));
                }
                if b_solid.id != a_solid.id {
                    let found = contact(&a_solid.shape, a_pos.0, &b_solid.shape, b_pos.0, 0);
                    match found {
                        Option::Some(c) => {
                            if c.depth != 0 {
                                ft = ft + (a_solid.friction + b_solid.friction);
                                let rel = Vec2 {
                                    x: a_solid.velocity.x - b_solid.velocity.x,
                                    y: a_solid.velocity.y - b_solid.velocity.y,
                                };
                                proof {
                                    lemma_dot_div_bounded(
                                        rel@,
                                        c.normal@,
                                        2 * MID_LIMIT as int,
                                        SCALE as int,
                                    );
                                }
                                let w = dot_div_trunc(rel, c.normal, SCALE);
                                proof {
                                    lemma_mul_div_bounded(c.normal@.x, w as int, SCALE as int);
                                    lemma_mul_div_bounded(c.normal@.y, w as int, SCALE as int);
                                }
                                let tvx = mul_div_trunc(c.normal.x, w, SCALE);
                                let tvy = mul_div_trunc(c.normal.y, w, SCALE);
                                vx = vx - tvx;
                                vy = vy - tvy;
                                proof {
                                    lemma_dot_div_bounded(
                                        a_solid.velocity@,
                                        c.normal@,
                                        MID_LIMIT as int,
                                        SCALE as int,
                                    );
                                    lemma_dot_div_bounded(
                                        b_solid.velocity@,
                                        c.normal@,
                                        MID_LIMIT as int,
                                        SCALE as int,
                                    );
                                }
                                let a_proj = abs_i64(dot_div_trunc(a_solid.velocity, c.normal, SCALE));
                                let b_proj = abs_i64(dot_div_trunc(b_solid.velocity, c.normal, SCALE));
                                let kd = position_share(a_proj, b_proj, c.depth);
                                proof {
                                    lemma_mul_div_bounded(c.normal@.x, kd as int, SCALE as int);
                                    lemma_mul_div_bounded(c.normal@.y, kd as int, SCALE as int);
                                }
                                let tpx = mul_div_trunc(c.normal.x, kd, SCALE);
                                let tpy = mul_div_trunc(c.normal.y, kd, SCALE);
                                px = px - tpx;
                                py = py - tpy;
                                if !b_solid.check_movement {
                                    px = px + (b_pos.0.x - b_solid.old_position.x);
                                    py = py + (b_pos.0.y - b_solid.old_position.y);
                                }
                            }
                        },
                        Option::None => {},
                    }
                }
                j = j + 1;
            }
            proof {
                assert(mids.take(n as int) =~= mids);
                assert(n * PAIR_LIMIT as int <= CACHE_LIMIT as int);
            }
            caches[i] = CollisionCache {
                position_resolve: Vec2 { x: px, y: py },
                velocity_resolve: Vec2 { x: vx, y: vy },
                friction_total: ft,
            };
        } else {
            caches[i] = CollisionCache::new();
        }
        i = i + 1;
    }
    // Pass 2 — application.
    let ghost mid_caches = caches@;
    let mut i: usize = 0;
    while i < n
        invariant
            n == old(positions)@.len(),
            n == old(solids)@.len(),
            n == old(caches)@.len(),
            positions@.len() == n,
            solids@.len() == n,
            caches@ == mid_caches,
            caches@.len() == n,
            i <= n,
            0 < delta_time <= SCALE,
            mids == mids_of(old(positions)@, old(solids)@),
            forall|k: int|
                0 <= k < n ==> v2_in_range(#[trigger] old(positions)@[k]@, MID_LIMIT as int),
            forall|k: int|
                0 <= k < n ==> solid_wf(#[trigger] old(solids)@[k]@, MID_LIMIT as int),
            forall|k: int|
                0 <= k < n ==> #[trigger] caches@[k]@ == spec_resolve_cache(k, mids),
            forall|k: int| 0 <= k < n ==> cache_in_limit(#[trigger] caches@[k]@),
            forall|k: int| i <= k < n ==> #[trigger] positions@[k] == old(positions)@[k],
            forall|k: int| i <= k < n ==> #[trigger] solids@[k] == old(solids)@[k],
            forall|k: int|
                0 <= k < i ==> #[trigger] positions@[k]@ == spec_apply(
                    mids[k],
                    spec_resolve_cache(k, mids),
                    delta_time as int,
                ).pos,
            forall|k: int|
                0 <= k < i ==> #[trigger] solids@[k]@ == spec_apply(
                    mids[k],
                    spec_resolve_cache(k, mids),
                    delta_time as int,
                ).solid,
        decreases n - i,
    {
        let c = caches[i];
        let mut p = positions[i];
        let mut s = solids[i];
        proof {
            assert(mids[i as int] == (BodyV { pos: p@, solid: s@ }));
            assert(c@ == spec_resolve_cache(i as int, mids));
        }
        if s.check_movement {
            p.0.x = p.0.x + c.position_resolve.x;
            p.0.y = p.0.y + c.position_resolve.y;
            let sum_v = Vec2 {
                x: s.velocity.x + c.velocity_resolve.x,
                y: s.velocity.y + c.velocity_resolve.y,
            };
            let fsum = AIR_FRICTION + c.friction_total;
            proof {
                lemma_mul_div_bounded(delta_time as int, fsum as int, SCALE as int);
                assert(fsum as int * delta_time == delta_time * fsum) by (nonlinear_arith);
            }
            let decel = mul_div_trunc(fsum, delta_time, SCALE);
            s.velocity = vector_lengthen(sum_v, -decel);
            positions[i] = p;
            solids[i] = s;
        }
        i = i + 1;
    }
}

/// The store's models after integrating every body.
pub open spec fn spec_tick_mids(ps: Seq<Position>, ss: Seq<Solid>, dt: int) -> Seq<BodyV> {
    Seq::new(ps.len(), |i: int| spec_integrate(ps[i]@, ss[i]@, dt))
}

/// The physics system: one call to `step` per frame.
pub struct Physics;

impl Physics {
    #[inline(always)]
    pub fn new() -> Physics {
        Physics
    }

    /// One full tick: integrate every body under gravity and its
    /// accumulated acceleration, then resolve every contact in two passes.
    /// Afterwards each body's cache holds the aggregated corrections the
    /// resolver computed for it this tick, and each body's position and
    /// velocity are the integrated state with those corrections (and the
    /// friction deceleration) applied — exactly `spec_apply` over
    /// `spec_resolve_cache` over `spec_tick_mids`.
    pub fn step(
        &self,
        positions: &mut Vec<Position>,
        solids: &mut Vec<Solid>,
        caches: &mut Vec<CollisionCache>,
        delta_time: i64,
    )
        requires
            old(positions)@.len() == old(solids)@.len(),
            old(positions)@.len() == old(caches)@.len(),
            old(positions)@.len() <= MAX_BODIES,
            0 < delta_time <= SCALE,
            forall|i: int|
                0 <= i < old(positions)@.len() ==> v2_in_range(
                    #[trigger] old(positions)@[i]@,
                    WORLD_LIMIT as int,
                ),
            forall|i: int|
                0 <= i < old(solids)@.len() ==> solid_wf(
                    #[trigger] old(solids)@[i]@,
                    WORLD_LIMIT as int,
                ),
        ensures
            final(positions)@.len() == old(positions)@.len(),
            final(solids)@.len() == old(solids)@.len(),
            final(caches)@.len() == old(caches)@.len(),
            forall|i: int|
                0 <= i < old(caches)@.len() ==> #[trigger] final(caches)@[i]@ == spec_resolve_cache(
                    i,
                    spec_tick_mids(old(positions)@, old(solids)@, delta_time as int),
                ),
            forall|i: int|
                0 <= i < old(positions)@.len() ==> #[trigger] final(positions)@[i]@ == spec_apply(
                    spec_tick_mids(old(positions)@, old(solids)@, delta_time as int)[i],
                    spec_resolve_cache(
                        i,
                        spec_tick_mids(old(positions)@, old(solids)@, delta_time as int),
                    ),
                    delta_time as int,
                ).pos,
            forall|i: int|
                0 <= i < old(solids)@.len() ==> #[trigger] final(solids)@[i]@ == spec_apply(
                    spec_tick_mids(old(positions)@, old(solids)@, delta_time as int)[i],
                    spec_resolve_cache(
                        i,
                        spec_tick_mids(old(positions)@, old(solids)@, delta_time as int),
                    ),
                    delta_time as int,
                ).solid,
    {
        let ghost mids = spec_tick_mids(old(positions)@, old(solids)@, delta_time as int);
        integrate_all(positions, solids, delta_time);
        proof {
            assert(mids_of(positions@, solids@) =~= mids);
        }
        resolve(positions, solids, caches, delta_time);
    }

    /// A body is on ground this tick iff the resolver pushed it upward out
    /// of something below (the world is y-down).
    pub fn on_ground(cache: &CollisionCache) -> (r: bool)
        ensures
            r == (cache@.position_resolve.y < 0),
    {
        cache.position_resolve.y < 0
    }
}

/// Upward velocity a jump assigns: 420 pixels per second, in subpixel units.
pub const V_JUMP: i64 = 1_512_000;

/// Running speed the adapter steers toward: 100 pixels per second.
pub const V_RUN: i64 = 360_000;

/// Running acceleration for player 0: 1200 pixels per second squared.
pub const A_RUN: i64 = 4_320_000;

/// One player's intents for this frame: a jump edge and the held
/// left/right directions.
#[derive(Clone, Copy, PartialEq, Eq, Structural, Debug)]
pub struct InputSnapshot {
    /// The jump key went down this frame.
    pub jump: bool,
    /// The left key is held.
    pub left: bool,
    /// The right key is held.
    pub right: bool,
}

pub open spec fn solid_with_velocity(s: SolidV, v: V2) -> SolidV {
    SolidV {
        id: s.id,
        typ: s.typ,
        check_movement: s.check_movement,
        gravity: s.gravity,
        friction: s.friction,
        shape: s.shape,
        velocity: v,
        acceleration: s.acceleration,
        old_position: s.old_position,
        old_velocity: s.old_velocity,
        old_acceleration: s.old_acceleration,
    }
}

pub open spec fn solid_with_acceleration(s: SolidV, a: V2) -> SolidV {
    SolidV {
        id: s.id,
        typ: s.typ,
        check_movement: s.check_movement,
        gravity: s.gravity,
        friction: s.friction,
        shape: s.shape,
        velocity: s.velocity,
        acceleration: a,
        old_position: s.old_position,
        old_velocity: s.old_velocity,
        old_acceleration: s.old_acceleration,
    }
}

/// What the adapter writes onto a player's body.  A jump (only on the
/// ground, see `Physics::on_ground`) assigns the upward jump velocity.
/// Player 0 steers by acceleration: while a direction is held and the
/// velocity has not reached the running speed, `A_RUN` is added toward it.
/// Player 1 steers by assignment: while a direction is held the velocity is
/// clamped outward to at least the running speed.  Other ids change
/// nothing.
pub open spec fn spec_player_input(
    id: int,
    jump: bool,
    left: bool,
    right: bool,
    s: SolidV,
    c: CacheV,
) -> SolidV {
    if id == 0 {
        let s1 = if jump && c.position_resolve.y < 0 {
            solid_with_velocity(s, v2(s.velocity.x, -V_JUMP as int))
        } else {
            s
        };
        let s2 = if left && s1.velocity.x > -V_RUN as int {
            solid_with_acceleration(s1, v2(s1.acceleration.x - A_RUN as int, s1.acceleration.y))
        } else {
            s1
        };
        if right && s2.velocity.x < V_RUN as int {
            solid_with_acceleration(s2, v2(s2.acceleration.x + A_RUN as int, s2.acceleration.y))
        } else {
            s2
        }
    } else if id == 1 {
        let s1 = if jump && c.position_resolve.y < 0 {
            solid_with_velocity(s, v2(s.velocity.x, -V_JUMP as int))
        } else {
            s
        };
        let s2 = if left && s1.velocity.x > -V_RUN as int {
            solid_with_velocity(s1, v2(-V_RUN as int, s1.velocity.y))
        } else {
            s1
        };
        if right && s2.velocity.x < V_RUN as int {
            solid_with_velocity(s2, v2(V_RUN as int, s2.velocity.y))
        } else {
            s2
        }
    } else {
        s
    }
}

/// The input-to-velocity adapter.
pub struct PlayerInput;

impl PlayerInput {
    /// Write one player's intents onto its body, per `spec_player_input`:
    /// jumps are gated on the ground signal of the body's cache, player 0
    /// accelerates toward the running speed, player 1 assigns it.
    pub fn apply(
        &self,
        player: &Player,
        input: &InputSnapshot,
        solid: &mut Solid,
        cache: &CollisionCache,
    )
        requires
            solid_wf(old(solid)@, WORLD_LIMIT as int),
            -WORLD_LIMIT + A_RUN <= old(solid)@.acceleration.x,
            old(solid)@.acceleration.x <= WORLD_LIMIT - A_RUN,
        ensures
            final(solid)@ == spec_player_input(
                player.id as int,
                input.jump,
                input.left,
                input.right,
                old(solid)@,
                cache@,
            ),
            solid_wf(final(solid)@, WORLD_LIMIT as int),
    {
        if player.id == 0 {
            if input.jump {
                if cache.position_resolve.y < 0 {
                    solid.velocity.y = -V_JUMP;
                }
            }
            if input.left {
                if solid.velocity.x > -V_RUN {
                    solid.acceleration.x = solid.acceleration.x - A_RUN;
                }
            }
            if input.right {
                if solid.velocity.x < V_RUN {
                    solid.acceleration.x = solid.acceleration.x + A_RUN;
                }
            }
        } else if player.id == 1 {
            if input.jump {
                if cache.position_resolve.y < 0 {
                    solid.velocity.y = -V_JUMP;
                }
            }
            if input.left {
                if solid.velocity.x > -V_RUN {
                    solid.velocity.x = -V_RUN;
                }
            }
            if input.right {
                if solid.velocity.x < V_RUN {
                    solid.velocity.x = V_RUN;
                }
            }
        }
    }
}

/// The world bounding box of a shape at a position, as the renderer reads
/// it: its center and its side lengths.  A half-plane is unbounded and gets
/// an empty box.
pub open spec fn spec_sprite_transform(s: ShapeV, pos: V2) -> (V2, V2) {
    match s {
        ShapeV::Aabb { half } => (pos, v2(2 * half.x, 2 * half.y)),
        ShapeV::Circle { radius } => (pos, v2(2 * radius, 2 * radius)),
        ShapeV::HalfPlane { normal } => (pos, v2(0, 0)),
    }
}

/// Two bodies overlap with depth above zero.
pub open spec fn spec_touching(a: BodyV, b: BodyV) -> bool {
    match spec_contact(a.solid.shape, a.pos, b.solid.shape, b.pos, 0) {
        Option::Some(c) => c.depth != 0,
        Option::None => false,
    }
}

proof fn lemma_cache_sum_zero(a: BodyV, others: Seq<BodyV>)
    requires
        forall|j: int|
            0 <= j < others.len() ==> spec_pair_term(a, #[trigger] others[j]) == cache_zero(),
    ensures
        spec_cache_sum(a, others) == cache_zero(),
    decreases others.len(),
{
    if others.len() > 0 {
        lemma_cache_sum_zero(a, others.drop_last());
        assert(others[others.len() - 1] == others.last());
    }
}

/// Law: resolver idleness at separation.  A body in contact with nothing
/// (of different identity) accumulates a zero cache; the second pass then
/// leaves its position exactly as integrated, and only the ambient
/// `AIR_FRICTION` deceleration touches its velocity.
pub proof fn lemma_resolver_idle_when_separated(i: int, mids: Seq<BodyV>, dt: int)
    requires
        0 <= i < mids.len(),
        forall|j: int|
            0 <= j < mids.len() && (#[trigger] mids[j]).solid.id != mids[i].solid.id
                ==> !spec_touching(mids[i], mids[j]),
    ensures
        spec_resolve_cache(i, mids) == cache_zero(),
        spec_apply(mids[i], spec_resolve_cache(i, mids), dt).pos == mids[i].pos,
        spec_apply(mids[i], spec_resolve_cache(i, mids), dt).solid.velocity == (
        if mids[i].solid.check_movement {
            spec_lengthen(
                mids[i].solid.velocity,
                -spec_mul_div(AIR_FRICTION as int, dt, SCALE as int),
            )
        } else {
            mids[i].solid.velocity
        }),
{
    assert forall|j: int| 0 <= j < mids.len() implies spec_pair_term(
        mids[i],
        #[trigger] mids[j],
    ) == cache_zero() by {
        if mids[j].solid.id != mids[i].solid.id {
            assert(!spec_touching(mids[i], mids[j]));
        }
    }
    lemma_cache_sum_zero(mids[i], mids);
    assert(v2_add(mids[i].pos, v2(0, 0)) == mids[i].pos);
    assert(v2_add(mids[i].solid.velocity, v2(0, 0)) == mids[i].solid.velocity);
}

/// Law: no self-contact.  A body's aggregated cache is unchanged by adding
/// (anywhere in the iteration) or removing a copy of the body itself: the
/// pass skips contacts by identity.
pub proof fn lemma_self_contact_ignored(a: BodyV, others: Seq<BodyV>, b: BodyV, k: int)
    requires
        0 <= k <= others.len(),
        b.solid.id == a.solid.id,
    ensures
        spec_cache_sum(a, others.insert(k, b)) == spec_cache_sum(a, others),
    decreases others.len(),
{
    let s2 = others.insert(k, b);
    if k == others.len() {
        assert(s2.drop_last() =~= others);
        assert(s2.last() == b);
        assert(spec_pair_term(a, b) == cache_zero());
        assert(cache_add(spec_cache_sum(a, others), cache_zero()) == spec_cache_sum(a, others));
    } else {
        assert(s2.last() == others.last());
        assert(s2.drop_last() =~= others.drop_last().insert(k, b));
        lemma_self_contact_ignored(a, others.drop_last(), b, k);
    }
}

/// Law: a body with `check_movement` false acts as a wall.  Whatever it
/// touches, the resolver leaves it a zero cache and returns it from the
/// second pass exactly as the integrator left it.
pub proof fn lemma_static_acts_as_wall(i: int, mids: Seq<BodyV>, dt: int)
    requires
        0 <= i < mids.len(),
        !mids[i].solid.check_movement,
    ensures
        spec_resolve_cache(i, mids) == cache_zero(),
        spec_apply(mids[i], spec_resolve_cache(i, mids), dt) == mids[i],
{
}

/// Law: moving-static carry.  A contact of `a` with a non-dynamic `b`
/// contributes `b`'s displacement this step, `b.pos - b.old_position`, on
/// top of the depth push; a contact with a dynamic `b` contributes the push
/// alone.
pub proof fn lemma_moving_static_carry(a: BodyV, b: BodyV, c: ContactV)
    requires
        b.solid.id != a.solid.id,
        spec_contact(a.solid.shape, a.pos, b.solid.shape, b.pos, 0) == Option::Some(c),
        c.depth != 0,
    ensures
        !b.solid.check_movement ==> spec_pair_term(a, b).position_resolve == v2_add(
            spec_push(a, b, c),
            v2_sub(b.pos, b.solid.old_position),
        ),
        b.solid.check_movement ==> spec_pair_term(a, b).position_resolve == spec_push(a, b, c),
{
    assert(v2_add(spec_push(a, b, c), v2(0, 0)) == spec_push(a, b, c));
}

/// After a full tick a body's force accumulator is spent: its
/// acceleration is zero again, and `old_acceleration` retains the
/// acceleration the tick integrated, gravity included.
pub proof fn lemma_tick_clears_acceleration(i: int, mids: Seq<BodyV>, dt: int, pos: V2, s: SolidV)
    requires
        0 <= i < mids.len(),
        mids[i] == spec_integrate(pos, s, dt),
    ensures
        spec_apply(mids[i], spec_resolve_cache(i, mids), dt).solid.acceleration == v2(0, 0),
        spec_apply(mids[i], spec_resolve_cache(i, mids), dt).solid.old_acceleration == (
        if s.gravity {
            v2(s.acceleration.x, s.acceleration.y + GRAVITY)
        } else {
            s.acceleration
        }),
{
}

/// Law: friction never reverses a velocity component.  In the second pass,
/// each component of a dynamic body's final velocity keeps the sign of the
/// corrected velocity `v + velocity_resolve`, or reaches exactly zero; and
/// under a true deceleration (nonnegative friction, nonnegative `dt`) its
/// magnitude never grows.
pub proof fn lemma_friction_no_reverse(mid: BodyV, c: CacheV, dt: int)
    requires
        mid.solid.check_movement,
    ensures
        sign(spec_apply(mid, c, dt).solid.velocity.x) == sign(
            v2_add(mid.solid.velocity, c.velocity_resolve).x,
        ) || spec_apply(mid, c, dt).solid.velocity.x == 0,
        sign(spec_apply(mid, c, dt).solid.velocity.y) == sign(
            v2_add(mid.solid.velocity, c.velocity_resolve).y,
        ) || spec_apply(mid, c, dt).solid.velocity.y == 0,
        0 <= c.friction_total && 0 <= dt ==> abs(spec_apply(mid, c, dt).solid.velocity.x) <= abs(
            v2_add(mid.solid.velocity, c.velocity_resolve).x,
        ),
        0 <= c.friction_total && 0 <= dt ==> abs(spec_apply(mid, c, dt).solid.velocity.y) <= abs(
            v2_add(mid.solid.velocity, c.velocity_resolve).y,
        ),
{
    let w = v2_add(mid.solid.velocity, c.velocity_resolve);
    let d = -spec_mul_div(AIR_FRICTION as int + c.friction_total, dt, SCALE as int);
    lemma_lengthen_no_reverse(w, d);
    if 0 <= c.friction_total && 0 <= dt {
        assert((AIR_FRICTION as int + c.friction_total) * dt >= 0) by (nonlinear_arith)
            requires
                0 <= c.friction_total,
                0 <= dt,
        ;
        lemma_div_trunc_shrinks((AIR_FRICTION as int + c.friction_total) * dt, SCALE as int);
        assert(d <= 0);
    }
}

/// Feeds final positions and shapes to the renderer.
pub struct Render;

impl Render {
    /// The translation (box center) and scale (side lengths) of one body's
    /// renderable, from its shape's world bounding box.
    pub fn sprite_transform(&self, shape: &Shape, position: &Position) -> (t: (Vec2, Vec2))
        requires
            shape_wf(shape@, GEOM_LIMIT as int),
    ensures
            (t.0@, t.1@) == spec_sprite_transform(shape@, position@),
    {
        match *shape {
            Shape::Aabb { half } => (position.0, Vec2 { x: 2 * half.x, y: 2 * half.y }),
            Shape::Circle { radius } => (position.0, Vec2 { x: 2 * radius, y: 2 * radius }),
            Shape::HalfPlane { normal: _ } => (position.0, Vec2 { x: 0, y: 0 }),
        }
    }
}

} // verus!
