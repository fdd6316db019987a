//! Convex primitives and the pairwise contact query.
//!
//! `contact` reports, for two shapes at two positions, whether they overlap
//! (or come within `margin` of overlapping) and if so along which axis:
//! the returned normal points from the first shape toward the second along
//! the separating axis of minimum penetration, and the depth is the overlap
//! along that normal.  `spec_contact` is the integer model the query is
//! proved equal to.

use crate::util::{
    abs, abs_i64, dot_div_trunc, isqrt, lemma_div_trunc_le_magnitude, lemma_mul_bounds,
    lemma_mul_div_bounded, lemma_sqrt_floor_bounds, lemma_sqrt_floor_covers_square,
    mul_div_trunc, spec_div_trunc, spec_dot_div, spec_mul_div, sqrt_floor, v2, v2_in_range,
    v2_neg, v2_norm_sq, v2_sub, Vec2, SCALE, V2,
};
use vstd::prelude::*;

verus! {

/// Bound on positions, half extents, radii and margins that the contact
/// query accepts; every intermediate value then fits comfortably in `i64`.
pub const GEOM_LIMIT: i64 = 0x100_0000_0000;

/// Largest depth the contact query can report under `GEOM_LIMIT` inputs.
pub const DEPTH_LIMIT: i64 = 0x600_0000_0000;

/// Mathematical model of a shape.
pub ghost enum ShapeV {
    Aabb { half: V2 },
    Circle { radius: int },
    HalfPlane { normal: V2 },
}

/// A convex primitive, centered on the owning body's position.
#[derive(Clone, Copy, PartialEq, Eq, Structural, Debug)]
pub enum Shape {
    /// Axis-aligned rectangle given by its half extents.
    Aabb { half: Vec2 },
    /// Circle given by its radius.
    Circle { radius: i64 },
    /// The infinite region behind a boundary line, given by the boundary's
    /// outward unit normal (length `SCALE`).
    HalfPlane { normal: Vec2 },
}

impl View for Shape {
    type V = ShapeV;

    open spec fn view(&self) -> ShapeV {
        match *self {
            Shape::Aabb { half } => ShapeV::Aabb { half: half@ },
            Shape::Circle { radius } => ShapeV::Circle { radius: radius as int },
            Shape::HalfPlane { normal } => ShapeV::HalfPlane { normal: normal@ },
        }
    }
}

/// Well-formed under bound `b`: extents and radii are nonnegative and within
/// `b`, and a half-plane's outward normal has length exactly `SCALE`.
pub open spec fn shape_wf(s: ShapeV, b: int) -> bool {
    match s {
        ShapeV::Aabb { half } => 0 <= half.x <= b && 0 <= half.y <= b,
        ShapeV::Circle { radius } => 0 <= radius <= b,
        ShapeV::HalfPlane { normal } => v2_norm_sq(normal) == SCALE * SCALE && v2_in_range(
            normal,
            SCALE as int,
        ),
    }
}

/// Rectangle shape from half extents.
pub fn aabb(half_extents: Vec2) -> (s: Shape)
    requires
        0 <= half_extents@.x,
        0 <= half_extents@.y,
    ensures
        s@ == (ShapeV::Aabb { half: half_extents@ }),
{
    Shape::Aabb { half: half_extents }
}

/// Circle shape from a radius.
pub fn circle(radius: i64) -> (s: Shape)
    requires
        0 <= radius,
    ensures
        s@ == (ShapeV::Circle { radius: radius as int }),
{
    Shape::Circle { radius }
}

/// Half-plane shape from an outward unit normal (length `SCALE`).
pub fn half_plane(outward_normal: Vec2) -> (s: Shape)
    requires
        v2_norm_sq(outward_normal@) == SCALE * SCALE,
        v2_in_range(outward_normal@, SCALE as int),
    ensures
        s@ == (ShapeV::HalfPlane { normal: outward_normal@ }),
{
    Shape::HalfPlane { normal: outward_normal }
}

/// Mathematical model of a contact.
pub ghost struct ContactV {
    /// Unit normal (length `SCALE`, up to truncation) from the first shape
    /// toward the second.
    pub normal: V2,
    /// Overlap along the normal; nonnegative once the shapes touch.
    pub depth: int,
}

/// A detected contact between two shapes.
#[derive(Clone, Copy, PartialEq, Eq, Structural, Debug)]
pub struct Contact {
    /// Unit normal (length `SCALE`, up to truncation) from the first shape
    /// toward the second.
    pub normal: Vec2,
    /// Overlap along the normal; nonnegative once the shapes touch.
    pub depth: i64,
}

impl View for Contact {
    type V = ContactV;

    open spec fn view(&self) -> ContactV {
        ContactV { normal: self.normal@, depth: self.depth as int }
    }
}

pub open spec fn contact_opt_view(r: Option<Contact>) -> Option<ContactV> {
    match r {
        Option::Some(c) => Option::Some(c@),
        Option::None => Option::None,
    }
}

/// Reverses a contact's direction, for querying a pair in the other order.
pub open spec fn spec_contact_flip(c: Option<ContactV>) -> Option<ContactV> {
    match c {
        Option::Some(k) => Option::Some(ContactV { normal: v2_neg(k.normal), depth: k.depth }),
        Option::None => Option::None,
    }
}

/// Clamp `x` into `[-h, h]`.
pub open spec fn spec_clamp(x: int, h: int) -> int {
    if x > h {
        h
    } else if x < -h {
        -h
    } else {
        x
    }
}

/// Box against box: per-axis overlap of the extent sums over the center
/// distance; the axis of least overlap wins, the x axis on ties, and the
/// normal's sign keeps a nonnegative projection of the center offset `d`.
pub open spec fn spec_contact_aabb_aabb(ha: V2, hb: V2, d: V2, margin: int) -> Option<ContactV> {
    let ox = ha.x + hb.x - abs(d.x);
    let oy = ha.y + hb.y - abs(d.y);
    if ox < -margin || oy < -margin {
        Option::None
    } else if ox <= oy {
        Option::Some(
            ContactV {
                normal: v2(
                    if d.x >= 0 {
                        SCALE as int
                    } else {
                        -(SCALE as int)
                    },
                    0,
                ),
                depth: ox,
            },
        )
    } else {
        Option::Some(
            ContactV {
                normal: v2(
                    0,
                    if d.y >= 0 {
                        SCALE as int
                    } else {
                        -(SCALE as int)
                    },
                ),
                depth: oy,
            },
        )
    }
}

/// Circle against circle: depth is the radius sum over the center distance
/// (its floored square root); the normal follows the center offset, or the
/// x axis when the centers coincide.
pub open spec fn spec_contact_circle_circle(ra: int, rb: int, d: V2, margin: int) -> Option<
    ContactV,
> {
    let l = sqrt_floor(v2_norm_sq(d));
    let depth = ra + rb - l;
    if depth < -margin {
        Option::None
    } else if l == 0 {
        Option::Some(ContactV { normal: v2(SCALE as int, 0), depth })
    } else {
        Option::Some(
            ContactV {
                normal: v2(spec_mul_div(d.x, SCALE as int, l), spec_mul_div(d.y, SCALE as int, l)),
                depth,
            },
        )
    }
}

/// Box against circle, the circle's center at offset `d` from the box's.
/// With the center inside the box the least-exit axis wins as for two boxes;
/// outside, the axis runs from the nearest point of the box to the center.
pub open spec fn spec_contact_aabb_circle(h: V2, r: int, d: V2, margin: int) -> Option<ContactV> {
    if abs(d.x) <= h.x && abs(d.y) <= h.y {
        let ox = h.x + r - abs(d.x);
        let oy = h.y + r - abs(d.y);
        if ox <= oy {
            Option::Some(
                ContactV {
                    normal: v2(
                        if d.x >= 0 {
                            SCALE as int
                        } else {
                            -(SCALE as int)
                        },
                        0,
                    ),
                    depth: ox,
                },
            )
        } else {
            Option::Some(
                ContactV {
                    normal: v2(
                        0,
                        if d.y >= 0 {
                            SCALE as int
                        } else {
                            -(SCALE as int)
                        },
                    ),
                    depth: oy,
                },
            )
        }
    } else {
        let e = v2_sub(d, v2(spec_clamp(d.x, h.x), spec_clamp(d.y, h.y)));
        let l = sqrt_floor(v2_norm_sq(e));
        let depth = r - l;
        if depth < -margin {
            Option::None
        } else if l == 0 {
            Option::Some(ContactV { normal: v2(SCALE as int, 0), depth })
        } else {
            Option::Some(
                ContactV {
                    normal: v2(
                        spec_mul_div(e.x, SCALE as int, l),
                        spec_mul_div(e.y, SCALE as int, l),
                    ),
                    depth,
                },
            )
        }
    }
}

/// Half-plane with outward normal `n` against a shape at offset `d` whose
/// support radius along `-n` is `r_eff`: depth is that radius over the
/// center's height above the boundary.
pub open spec fn spec_contact_halfplane(n: V2, r_eff: int, d: V2, margin: int) -> Option<
    ContactV,
> {
    let depth = r_eff - spec_dot_div(d, n, SCALE as int);
    if depth < -margin {
        Option::None
    } else {
        Option::Some(ContactV { normal: n, depth })
    }
}

/// Support radius of a box with half extents `h` along a unit direction `n`.
pub open spec fn spec_support_radius(n: V2, h: V2) -> int {
    spec_dot_div(v2(abs(n.x), abs(n.y)), h, SCALE as int)
}

/// The contact query's integer model: normal from the first shape toward the
/// second along the axis of minimum penetration, depth the overlap along it,
/// none when the shapes are separate by more than `margin`.  The one pair
/// without a defined query is half-plane against half-plane.
pub open spec fn spec_contact(sa: ShapeV, pa: V2, sb: ShapeV, pb: V2, margin: int) -> Option<
    ContactV,
> {
    let d = v2_sub(pb, pa);
    match sa {
        ShapeV::Aabb { half: ha } => match sb {
            ShapeV::Aabb { half: hb } => spec_contact_aabb_aabb(ha, hb, d, margin),
            ShapeV::Circle { radius: rb } => spec_contact_aabb_circle(ha, rb, d, margin),
            ShapeV::HalfPlane { normal: nb } => spec_contact_flip(
                spec_contact_halfplane(nb, spec_support_radius(nb, ha), v2_neg(d), margin),
            ),
        },
        ShapeV::Circle { radius: ra } => match sb {
            ShapeV::Aabb { half: hb } => spec_contact_flip(
                spec_contact_aabb_circle(hb, ra, v2_neg(d), margin),
            ),
            ShapeV::Circle { radius: rb } => spec_contact_circle_circle(ra, rb, d, margin),
            ShapeV::HalfPlane { normal: nb } => spec_contact_flip(
                spec_contact_halfplane(nb, ra, v2_neg(d), margin),
            ),
        },
        ShapeV::HalfPlane { normal: na } => match sb {
            ShapeV::Aabb { half: hb } => spec_contact_halfplane(
                na,
                spec_support_radius(na, hb),
                d,
                margin,
            ),
            ShapeV::Circle { radius: rb } => spec_contact_halfplane(na, rb, d, margin),
            ShapeV::HalfPlane { normal: nb } => Option::None,
        },
    }
}

/// Clamp `x` into `[-h, h]`.
fn clamp_i64(x: i64, h: i64) -> (r: i64)
    requires
        0 <= h,
    ensures
        r == spec_clamp(x as int, h as int),
{
    if x > h {
        h
    } else if x < -h {
        -h
    } else {
        x
    }
}

/// For box against box, the chosen normal truly points from the first
/// body toward the second: the center offset `d` has a nonnegative
/// projection on it.
pub proof fn lemma_aabb_normal_faces_other(ha: V2, hb: V2, d: V2, margin: int, c: ContactV)
    requires
        spec_contact_aabb_aabb(ha, hb, d, margin) == Option::Some(c),
    ensures
        c.normal.x * d.x + c.normal.y * d.y >= 0,
{
    assert((d.x >= 0 ==> (SCALE as int) * d.x >= 0) && (d.x < 0 ==> (-(SCALE as int)) * d.x >= 0)
        && (d.y >= 0 ==> (SCALE as int) * d.y >= 0) && (d.y < 0 ==> (-(SCALE as int)) * d.y >= 0)
        && 0 * d.x == 0 && 0 * d.y == 0) by (nonlinear_arith);
}

/// Direction scaled to unit length `SCALE` by the floored square root `l` of
/// its squared norm; each component stays within `SCALE`.
fn scale_to_unit(e: Vec2, l: i64) -> (n: Vec2)
    requires
        1 <= l,
        abs(e@.x) <= l,
        abs(e@.y) <= l,
    ensures
        n@ == v2(
            spec_mul_div(e@.x, SCALE as int, l as int),
            spec_mul_div(e@.y, SCALE as int, l as int),
        ),
        v2_in_range(n@, SCALE as int),
{
    proof {
        lemma_mul_div_bounded(e@.x, SCALE as int, l as int);
        lemma_mul_div_bounded(e@.y, SCALE as int, l as int);
    }
    Vec2 { x: mul_div_trunc(e.x, SCALE, l), y: mul_div_trunc(e.y, SCALE, l) }
}

/// Floored square root of the squared norm of `e`, with the facts the
/// callers need: it brackets the norm and dominates both components.
fn norm_floor(e: Vec2) -> (l: i64)
    requires
        v2_in_range(e@, 0x300_0000_0000),
    ensures
        l == sqrt_floor(v2_norm_sq(e@)),
        0 <= l <= 0x500_0000_0000,
        abs(e@.x) <= l,
        abs(e@.y) <= l,
        v2_norm_sq(e@) == 0 <==> l == 0,
{
    proof {
        lemma_mul_bounds(e@.x, e@.x, 0x300_0000_0000, 0x300_0000_0000);
        lemma_mul_bounds(e@.y, e@.y, 0x300_0000_0000, 0x300_0000_0000);
        assert(e@.x * e@.x >= 0 && e@.y * e@.y >= 0 && e@.x * e@.x == abs(e@.x) * abs(e@.x)
            && e@.y * e@.y == abs(e@.y) * abs(e@.y)) by (nonlinear_arith);
    }
    let nx: i128 = (e.x as i128) * (e.x as i128);
    let ny: i128 = (e.y as i128) * (e.y as i128);
    let ns: i128 = nx + ny;
    proof {
        let nsi = ns as int;
        lemma_sqrt_floor_bounds(nsi);
        lemma_sqrt_floor_covers_square(nsi, abs(e@.x));
        lemma_sqrt_floor_covers_square(nsi, abs(e@.y));
        assert(sqrt_floor(nsi) <= 0x500_0000_0000) by (nonlinear_arith)
            requires
                sqrt_floor(nsi) * sqrt_floor(nsi) <= nsi,
                nsi <= 2 * 0x300_0000_0000 * 0x300_0000_0000,
                0 <= sqrt_floor(nsi),
        ;
        if ns == 0 {
            assert(sqrt_floor(0) == 0);
        } else {
            assert(1 * 1 <= nsi);
            lemma_sqrt_floor_covers_square(nsi, 1);
        }
    }
    isqrt(ns as u128) as i64
}

/// Box against box.
fn contact_aabb_aabb(ha: Vec2, hb: Vec2, d: Vec2, margin: i64) -> (r: Option<Contact>)
    requires
        0 <= ha@.x <= GEOM_LIMIT as int,
        0 <= ha@.y <= GEOM_LIMIT as int,
        0 <= hb@.x <= GEOM_LIMIT as int,
        0 <= hb@.y <= GEOM_LIMIT as int,
        v2_in_range(d@, 2 * GEOM_LIMIT as int),
        0 <= margin <= GEOM_LIMIT,
    ensures
        contact_opt_view(r) == spec_contact_aabb_aabb(ha@, hb@, d@, margin as int),
        contact_bounded(r, margin as int),
{
    let ox = ha.x + hb.x - abs_i64(d.x);
    let oy = ha.y + hb.y - abs_i64(d.y);
    if ox < -margin || oy < -margin {
        Option::None
    } else if ox <= oy {
        Option::Some(
            Contact {
                normal: Vec2 {
                    x: if d.x >= 0 {
                        SCALE
                    } else {
                        -SCALE
                    },
                    y: 0,
                },
                depth: ox,
            },
        )
    } else {
        Option::Some(
            Contact {
                normal: Vec2 {
                    x: 0,
                    y: if d.y >= 0 {
                        SCALE
                    } else {
                        -SCALE
                    },
                },
                depth: oy,
            },
        )
    }
}

/// Bounds that every branch of the contact query keeps: depth within
/// `[-margin, DEPTH_LIMIT]` and a normal within `SCALE` per component.
pub open spec fn contact_bounded(r: Option<Contact>, margin: int) -> bool {
    match r {
        Option::Some(c) => -margin <= c.depth as int <= DEPTH_LIMIT as int && v2_in_range(
            c.normal@,
            SCALE as int,
        ),
        Option::None => true,
    }
}

/// Circle against circle.
fn contact_circle_circle(ra: i64, rb: i64, d: Vec2, margin: i64) -> (r: Option<Contact>)
    requires
        0 <= ra <= GEOM_LIMIT,
        0 <= rb <= GEOM_LIMIT,
        v2_in_range(d@, 2 * GEOM_LIMIT as int),
        0 <= margin <= GEOM_LIMIT,
    ensures
        contact_opt_view(r) == spec_contact_circle_circle(ra as int, rb as int, d@, margin as int),
        contact_bounded(r, margin as int),
{
    let l = norm_floor(d);
    let depth = ra + rb - l;
    if depth < -margin {
        Option::None
    } else if l == 0 {
        Option::Some(Contact { normal: Vec2 { x: SCALE, y: 0 }, depth })
    } else {
        Option::Some(Contact { normal: scale_to_unit(d, l), depth })
    }
}

/// Box against circle, the circle's center at offset `d` from the box's.
fn contact_aabb_circle(h: Vec2, r: i64, d: Vec2, margin: i64) -> (c: Option<Contact>)
    requires
        0 <= h@.x <= GEOM_LIMIT as int,
        0 <= h@.y <= GEOM_LIMIT as int,
        0 <= r <= GEOM_LIMIT,
        v2_in_range(d@, 2 * GEOM_LIMIT as int),
        0 <= margin <= GEOM_LIMIT,
    ensures
        contact_opt_view(c) == spec_contact_aabb_circle(h@, r as int, d@, margin as int),
        contact_bounded(c, margin as int),
{
    let adx = abs_i64(d.x);
    let ady = abs_i64(d.y);
    if adx <= h.x && ady <= h.y {
        let ox = h.x + r - adx;
        let oy = h.y + r - ady;
        if ox <= oy {
            Option::Some(
                Contact {
                    normal: Vec2 {
                        x: if d.x >= 0 {
                            SCALE
                        } else {
                            -SCALE
                        },
                        y: 0,
                    },
                    depth: ox,
                },
            )
        } else {
            Option::Some(
                Contact {
                    normal: Vec2 {
                        x: 0,
                        y: if d.y >= 0 {
                            SCALE
                        } else {
                            -SCALE
                        },
                    },
                    depth: oy,
                },
            )
        }
    } else {
        let e = Vec2 { x: d.x - clamp_i64(d.x, h.x), y: d.y - clamp_i64(d.y, h.y) };
        let l = norm_floor(e);
        let depth = r - l;
        if depth < -margin {
            Option::None
        } else if l == 0 {
            Option::Some(Contact { normal: Vec2 { x: SCALE, y: 0 }, depth })
        } else {
            Option::Some(Contact { normal: scale_to_unit(e, l), depth })
        }
    }
}

/// Half-plane with outward normal `n` against a center at offset `d` with
/// support radius `r_eff` along `-n`.
fn contact_halfplane(n: Vec2, r_eff: i64, d: Vec2, margin: i64) -> (c: Option<Contact>)
    requires
        v2_in_range(n@, SCALE as int),
        0 <= r_eff <= 2 * GEOM_LIMIT as int,
        v2_in_range(d@, 2 * GEOM_LIMIT as int),
        0 <= margin <= GEOM_LIMIT,
    ensures
        contact_opt_view(c) == spec_contact_halfplane(n@, r_eff as int, d@, margin as int),
        contact_bounded(c, margin as int),
{
    proof {
        lemma_mul_bounds(d@.x, n@.x, 2 * GEOM_LIMIT as int, SCALE as int);
        lemma_mul_bounds(d@.y, n@.y, 2 * GEOM_LIMIT as int, SCALE as int);
        lemma_div_trunc_le_magnitude(
            d@.x * n@.x + d@.y * n@.y,
            4 * GEOM_LIMIT as int * SCALE as int,
            SCALE as int,
        );
        vstd::arithmetic::div_mod::lemma_div_multiples_vanish(
            4 * GEOM_LIMIT as int,
            SCALE as int,
        );
    }
    let proj = dot_div_trunc(d, n, SCALE);
    let depth = r_eff - proj;
    if depth < -margin {
        Option::None
    } else {
        Option::Some(Contact { normal: n, depth })
    }
}

/// Support radius of a box with half extents `h` along a unit direction `n`.
fn support_radius(n: Vec2, h: Vec2) -> (r: i64)
    requires
        v2_in_range(n@, SCALE as int),
        0 <= h@.x <= GEOM_LIMIT as int,
        0 <= h@.y <= GEOM_LIMIT as int,
    ensures
        r == spec_support_radius(n@, h@),
        0 <= r <= 2 * GEOM_LIMIT as int,
{
    let na = Vec2 { x: abs_i64(n.x), y: abs_i64(n.y) };
    proof {
        lemma_mul_bounds(na@.x, h@.x, SCALE as int, GEOM_LIMIT as int);
        lemma_mul_bounds(na@.y, h@.y, SCALE as int, GEOM_LIMIT as int);
        lemma_div_trunc_le_magnitude(
            na@.x * h@.x + na@.y * h@.y,
            2 * GEOM_LIMIT as int * SCALE as int,
            SCALE as int,
        );
        vstd::arithmetic::div_mod::lemma_div_multiples_vanish(
            2 * GEOM_LIMIT as int,
            SCALE as int,
        );
        assert(na@.x * h@.x >= 0 && na@.y * h@.y >= 0) by (nonlinear_arith)
            requires
                na@.x >= 0 && na@.y >= 0 && h@.x >= 0 && h@.y >= 0,
        ;
    }
    dot_div_trunc(na, h, SCALE)
}

/// Reverses a contact's direction, for querying a pair in the other order.
fn flip_contact(r: Option<Contact>, Ghost(margin): Ghost<int>) -> (f: Option<Contact>)
    requires
        contact_bounded(r, margin),
    ensures
        contact_opt_view(f) == spec_contact_flip(contact_opt_view(r)),
        contact_bounded(f, margin),
{
    match r {
        Option::Some(c) => Option::Some(
            Contact { normal: Vec2 { x: -c.normal.x, y: -c.normal.y }, depth: c.depth },
        ),
        Option::None => Option::None,
    }
}

/// Pairwise contact query: the overlap (within `margin`) of two shapes at
/// two positions, as a unit normal from the first toward the second and the
/// penetration depth along it.  Verified to equal `spec_contact`; the one
/// pair it reports nothing for is half-plane against half-plane.
pub fn contact(sa: &Shape, pa: Vec2, sb: &Shape, pb: Vec2, margin: i64) -> (r: Option<Contact>)
    requires
        shape_wf(sa@, GEOM_LIMIT as int),
        shape_wf(sb@, GEOM_LIMIT as int),
        v2_in_range(pa@, GEOM_LIMIT as int),
        v2_in_range(pb@, GEOM_LIMIT as int),
        0 <= margin <= GEOM_LIMIT,
    ensures
        contact_opt_view(r) == spec_contact(sa@, pa@, sb@, pb@, margin as int),
        contact_bounded(r, margin as int),
{
    let d = Vec2 { x: pb.x - pa.x, y: pb.y - pa.y };
    let nd = Vec2 { x: pa.x - pb.x, y: pa.y - pb.y };
    proof {
        assert(d@ == v2_sub(pb@, pa@));
        assert(nd@ == v2_neg(v2_sub(pb@, pa@)));
    }
    match *sa {
        Shape::Aabb { half: ha } => match *sb {
            Shape::Aabb { half: hb } => contact_aabb_aabb(ha, hb, d, margin),
            Shape::Circle { radius: rb } => contact_aabb_circle(ha, rb, d, margin),
            Shape::HalfPlane { normal: nb } => {
                let re = support_radius(nb, ha);
                flip_contact(contact_halfplane(nb, re, nd, margin), Ghost(margin as int))
            },
        },
        Shape::Circle { radius: ra } => match *sb {
            Shape::Aabb { half: hb } => flip_contact(
                contact_aabb_circle(hb, ra, nd, margin),
                Ghost(margin as int),
            ),
            Shape::Circle { radius: rb } => contact_circle_circle(ra, rb, d, margin),
            Shape::HalfPlane { normal: nb } => flip_contact(
                contact_halfplane(nb, ra, nd, margin),
                Ghost(margin as int),
            ),
        },
        Shape::HalfPlane { normal: na } => match *sb {
            Shape::Aabb { half: hb } => {
                let re = support_radius(na, hb);
                contact_halfplane(na, re, d, margin)
            },
            Shape::Circle { radius: rb } => contact_halfplane(na, rb, d, margin),
            Shape::HalfPlane { normal: _nb } => Option::None,
        },
    }
}

} // verus!
