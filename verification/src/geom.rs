//! Affine transforms, source-space points, and the source-to-destination
//! coordinate mapper.
//!
//! A transform is the affine map `(x, y) -> (a x + c y + e, b x + d y + f)`
//! with all six coefficients sharing one positive denominator `den`, so
//! the coefficients are the rationals `a/den .. f/den`.  A source point
//! likewise holds two numerators over one denominator.  Composition and
//! application are exact; results whose integers would leave the
//! magnitude cap report `None`.

use vstd::prelude::*;
use vstd::arithmetic::mul::{
    lemma_mul_is_associative, lemma_mul_is_distributive_add, lemma_mul_is_distributive_add_other_way,
};
use crate::num::{
    in_lim, lemma_mul_lim, lemma_pos_mul, lemma_rhafz_bound, q_mul, q_round, q_sub, q_wf, qv,
    rat_fits, rat_mul, rat_sub, rhafz, Q, LIM,
};

verus! {

/// An affine transform: coefficients `a/den .. f/den`, `den > 0`.
#[derive(Clone, Copy, PartialEq, Eq, Structural, Debug)]
pub struct Transform2D {
    pub a: i64,
    pub b: i64,
    pub c: i64,
    pub d: i64,
    pub e: i64,
    pub f: i64,
    pub den: i64,
}

/// A point in source space: coordinates `x/den`, `y/den`, `den > 0`.
#[derive(Clone, Copy, PartialEq, Eq, Structural, Debug)]
pub struct SrcPoint {
    pub x: i64,
    pub y: i64,
    pub den: i64,
}

/// The mathematical value of a transform: unbounded integers.
pub ghost struct Tm {
    pub a: int,
    pub b: int,
    pub c: int,
    pub d: int,
    pub e: int,
    pub f: int,
    pub den: int,
}

/// The mathematical value of a source point: unbounded integers.
pub ghost struct Pm {
    pub x: int,
    pub y: int,
    pub den: int,
}

pub open spec fn tv(t: Transform2D) -> Tm {
    Tm {
        a: t.a as int,
        b: t.b as int,
        c: t.c as int,
        d: t.d as int,
        e: t.e as int,
        f: t.f as int,
        den: t.den as int,
    }
}

pub open spec fn pv(p: SrcPoint) -> Pm {
    Pm { x: p.x as int, y: p.y as int, den: p.den as int }
}

/// The transform's integers can be carried by a well-formed `Transform2D`.
pub open spec fn tm_fits(t: Tm) -> bool {
    in_lim(t.a) && in_lim(t.b) && in_lim(t.c) && in_lim(t.d) && in_lim(t.e) && in_lim(t.f)
        && 0 < t.den <= LIM as int
}

/// The point's integers can be carried by a well-formed `SrcPoint`.
pub open spec fn pm_fits(p: Pm) -> bool {
    in_lim(p.x) && in_lim(p.y) && 0 < p.den <= LIM as int
}

pub open spec fn t_wf(t: Transform2D) -> bool {
    tm_fits(tv(t))
}

pub open spec fn p_wf(p: SrcPoint) -> bool {
    pm_fits(pv(p))
}

/// The identity transform.
pub open spec fn tm_identity() -> Tm {
    Tm { a: 1, b: 0, c: 0, d: 1, e: 0, f: 0, den: 1 }
}

/// Composition `parent . child`: the child map applied first, matching
/// nested container semantics.
pub open spec fn tm_compose(p: Tm, c: Tm) -> Tm {
    Tm {
        a: p.a * c.a + p.c * c.b,
        b: p.b * c.a + p.d * c.b,
        c: p.a * c.c + p.c * c.d,
        d: p.b * c.c + p.d * c.d,
        e: p.a * c.e + p.c * c.f + p.e * c.den,
        f: p.b * c.e + p.d * c.f + p.f * c.den,
        den: p.den * c.den,
    }
}

/// Application of a transform to a point.
pub open spec fn tm_apply(t: Tm, p: Pm) -> Pm {
    Pm {
        x: t.a * p.x + t.c * p.y + t.e * p.den,
        y: t.b * p.x + t.d * p.y + t.f * p.den,
        den: t.den * p.den,
    }
}

/// One output row of the composition identity, spelled out with
/// distributivity and associativity steps.
proof fn lemma_compose_row(
    u: int,
    v: int,
    w: int,
    a2: int,
    b2: int,
    c2: int,
    d2: int,
    e2: int,
    f2: int,
    n2: int,
    px: int,
    py: int,
    pd: int,
)
    ensures
        (u * a2 + v * b2) * px + (u * c2 + v * d2) * py + (u * e2 + v * f2 + w * n2) * pd == u * (
        a2 * px + c2 * py + e2 * pd) + v * (b2 * px + d2 * py + f2 * pd) + w * (n2 * pd),
{
    lemma_mul_is_distributive_add_other_way(px, u * a2, v * b2);
    lemma_mul_is_distributive_add_other_way(py, u * c2, v * d2);
    lemma_mul_is_distributive_add_other_way(pd, u * e2 + v * f2, w * n2);
    lemma_mul_is_distributive_add_other_way(pd, u * e2, v * f2);
    lemma_mul_is_distributive_add(u, a2 * px + c2 * py, e2 * pd);
    lemma_mul_is_distributive_add(u, a2 * px, c2 * py);
    lemma_mul_is_distributive_add(v, b2 * px + d2 * py, f2 * pd);
    lemma_mul_is_distributive_add(v, b2 * px, d2 * py);
    lemma_mul_is_associative(u, a2, px);
    lemma_mul_is_associative(u, c2, py);
    lemma_mul_is_associative(u, e2, pd);
    lemma_mul_is_associative(v, b2, px);
    lemma_mul_is_associative(v, d2, py);
    lemma_mul_is_associative(v, f2, pd);
    lemma_mul_is_associative(w, n2, pd);
}

/// Applying a composed transform is applying the child's map and then
/// the parent's: the two orders give the very same integers.
pub proof fn lemma_apply_compose(t1: Tm, t2: Tm, p: Pm)
    ensures
        tm_apply(tm_compose(t1, t2), p) == tm_apply(t1, tm_apply(t2, p)),
{
    lemma_compose_row(
        t1.a,
        t1.c,
        t1.e,
        t2.a,
        t2.b,
        t2.c,
        t2.d,
        t2.e,
        t2.f,
        t2.den,
        p.x,
        p.y,
        p.den,
    );
    lemma_compose_row(
        t1.b,
        t1.d,
        t1.f,
        t2.a,
        t2.b,
        t2.c,
        t2.d,
        t2.e,
        t2.f,
        t2.den,
        p.x,
        p.y,
        p.den,
    );
    lemma_mul_is_associative(t1.den, t2.den, p.den);
}

/// A translation by `(tx, ty)` wrapped around content offsets every
/// source point by exactly that translation before the mapping: the
/// composed transform maps a point to the very destination the
/// identity gives the shifted point.
pub proof fn lemma_translate_offsets_before_mapping(
    tx: int,
    ty: int,
    p: Pm,
    h: (int, int),
    dsc: (int, int),
    sc: (int, int),
)
    ensures
        ({
            let tr = Tm { a: 1, b: 0, c: 0, d: 1, e: tx, f: ty, den: 1 };
            let shifted = Pm { x: p.x + tx * p.den, y: p.y + ty * p.den, den: p.den };
            map_m(tm_compose(tm_identity(), tr), p, h, dsc, sc) == map_m(
                tm_identity(),
                shifted,
                h,
                dsc,
                sc,
            )
        }),
{
    let tr = Tm { a: 1, b: 0, c: 0, d: 1, e: tx, f: ty, den: 1 };
    let shifted = Pm { x: p.x + tx * p.den, y: p.y + ty * p.den, den: p.den };
    assert(tm_compose(tm_identity(), tr) == tr);
    assert(tm_apply(tr, p) == shifted);
    assert(tm_apply(tm_identity(), shifted) == shifted);
}

/// The identity transform.
pub fn t_identity() -> (r: Transform2D)
    ensures
        t_wf(r),
        tv(r) == tm_identity(),
{
    Transform2D { a: 1, b: 0, c: 0, d: 1, e: 0, f: 0, den: 1 }
}

/// Compose two transforms, parent first; `None` when an exact
/// coefficient would leave the magnitude cap.
pub fn compose(p: &Transform2D, c: &Transform2D) -> (r: Option<Transform2D>)
    requires
        t_wf(*p),
        t_wf(*c),
    ensures
        r is Some <==> tm_fits(tm_compose(tv(*p), tv(*c))),
        r matches Some(t) ==> t_wf(t) && tv(t) == tm_compose(tv(*p), tv(*c)),
{
    proof {
        lemma_mul_lim(p.a as int, c.a as int);
        lemma_mul_lim(p.c as int, c.b as int);
        lemma_mul_lim(p.b as int, c.a as int);
        lemma_mul_lim(p.d as int, c.b as int);
        lemma_mul_lim(p.a as int, c.c as int);
        lemma_mul_lim(p.c as int, c.d as int);
        lemma_mul_lim(p.b as int, c.c as int);
        lemma_mul_lim(p.d as int, c.d as int);
        lemma_mul_lim(p.a as int, c.e as int);
        lemma_mul_lim(p.c as int, c.f as int);
        lemma_mul_lim(p.e as int, c.den as int);
        lemma_mul_lim(p.b as int, c.e as int);
        lemma_mul_lim(p.d as int, c.f as int);
        lemma_mul_lim(p.f as int, c.den as int);
        lemma_mul_lim(p.den as int, c.den as int);
        lemma_pos_mul(p.den as int, c.den as int);
    }
    let na: i128 = (p.a as i128) * (c.a as i128) + (p.c as i128) * (c.b as i128);
    let nb: i128 = (p.b as i128) * (c.a as i128) + (p.d as i128) * (c.b as i128);
    let nc: i128 = (p.a as i128) * (c.c as i128) + (p.c as i128) * (c.d as i128);
    let nd: i128 = (p.b as i128) * (c.c as i128) + (p.d as i128) * (c.d as i128);
    let ne: i128 = (p.a as i128) * (c.e as i128) + (p.c as i128) * (c.f as i128) + (p.e as i128)
        * (c.den as i128);
    let nf: i128 = (p.b as i128) * (c.e as i128) + (p.d as i128) * (c.f as i128) + (p.f as i128)
        * (c.den as i128);
    let nden: i128 = (p.den as i128) * (c.den as i128);
    let lo: i128 = -(LIM as i128);
    let hi: i128 = LIM as i128;
    if na < lo || na > hi || nb < lo || nb > hi || nc < lo || nc > hi || nd < lo || nd > hi
        || ne < lo || ne > hi || nf < lo || nf > hi || nden > hi {
        None
    } else {
        Some(
            Transform2D {
                a: na as i64,
                b: nb as i64,
                c: nc as i64,
                d: nd as i64,
                e: ne as i64,
                f: nf as i64,
                den: nden as i64,
            },
        )
    }
}

/// Apply a transform to a point; `None` when an exact coordinate would
/// leave the magnitude cap.
pub fn apply_transform(t: &Transform2D, p: &SrcPoint) -> (r: Option<SrcPoint>)
    requires
        t_wf(*t),
        p_wf(*p),
    ensures
        r is Some <==> pm_fits(tm_apply(tv(*t), pv(*p))),
        r matches Some(q) ==> p_wf(q) && pv(q) == tm_apply(tv(*t), pv(*p)),
{
    proof {
        lemma_mul_lim(t.a as int, p.x as int);
        lemma_mul_lim(t.c as int, p.y as int);
        lemma_mul_lim(t.e as int, p.den as int);
        lemma_mul_lim(t.b as int, p.x as int);
        lemma_mul_lim(t.d as int, p.y as int);
        lemma_mul_lim(t.f as int, p.den as int);
        lemma_mul_lim(t.den as int, p.den as int);
        lemma_pos_mul(t.den as int, p.den as int);
    }
    let nx: i128 = (t.a as i128) * (p.x as i128) + (t.c as i128) * (p.y as i128) + (t.e as i128)
        * (p.den as i128);
    let ny: i128 = (t.b as i128) * (p.x as i128) + (t.d as i128) * (p.y as i128) + (t.f as i128)
        * (p.den as i128);
    let nden: i128 = (t.den as i128) * (p.den as i128);
    let lo: i128 = -(LIM as i128);
    let hi: i128 = LIM as i128;
    if nx < lo || nx > hi || ny < lo || ny > hi || nden > hi {
        None
    } else {
        Some(SrcPoint { x: nx as i64, y: ny as i64, den: nden as i64 })
    }
}

/// The whole coordinate mapping as mathematics: transform the point,
/// then `x_dest = round(x' * scale)` and
/// `y_dest = round((h - descent - y') * scale)`, rounding half away
/// from zero.  `None` when an exact intermediate leaves the cap.
pub open spec fn map_m(t: Tm, p: Pm, h: (int, int), descent: (int, int), scale: (int, int)) -> Option<
    (int, int),
> {
    let q = tm_apply(t, p);
    if !pm_fits(q) {
        None
    } else {
        let xs = rat_mul((q.x, q.den), scale);
        if !rat_fits(xs) {
            None
        } else {
            let hd = rat_sub(h, descent);
            if !rat_fits(hd) {
                None
            } else {
                let yy = rat_sub(hd, (q.y, q.den));
                if !rat_fits(yy) {
                    None
                } else {
                    let ys = rat_mul(yy, scale);
                    if !rat_fits(ys) {
                        None
                    } else {
                        Some((rhafz(xs.0, xs.1), rhafz(ys.0, ys.1)))
                    }
                }
            }
        }
    }
}

/// Map a source point to destination (font-unit) integer coordinates:
/// apply the transform, scale the x coordinate, flip the y coordinate
/// about `h - descent` and scale it, then round each half away from
/// zero.
pub fn map_point(t: &Transform2D, p: &SrcPoint, h: Q, descent: Q, scale: Q) -> (r: Option<
    (i64, i64),
>)
    requires
        t_wf(*t),
        p_wf(*p),
        q_wf(h),
        q_wf(descent),
        q_wf(scale),
    ensures
        r is Some <==> map_m(tv(*t), pv(*p), qv(h), qv(descent), qv(scale)) is Some,
        r matches Some(xy) ==> ({
            &&& map_m(tv(*t), pv(*p), qv(h), qv(descent), qv(scale)) matches Some(m)
            &&& m.0 == xy.0 as int
            &&& m.1 == xy.1 as int
            &&& in_lim(xy.0 as int)
            &&& in_lim(xy.1 as int)
        }),
{
    let q = match apply_transform(t, p) {
        Some(q) => q,
        None => { return None; },
    };
    let xs = match q_mul(Q { n: q.x, d: q.den }, scale) {
        Some(v) => v,
        None => { return None; },
    };
    let hd = match q_sub(h, descent) {
        Some(v) => v,
        None => { return None; },
    };
    let yy = match q_sub(hd, Q { n: q.y, d: q.den }) {
        Some(v) => v,
        None => { return None; },
    };
    let ys = match q_mul(yy, scale) {
        Some(v) => v,
        None => { return None; },
    };
    let x = q_round(xs);
    let y = q_round(ys);
    Some((x, y))
}

/// With the identity transform, unit scale and zero descent, the
/// mapping is the pure vertical flip: `(x, y)` goes to `(x, h - y)`.
pub proof fn lemma_map_pure_flip(x: int, y: int, h: int)
    requires
        in_lim(x),
        in_lim(y),
        in_lim(h),
        in_lim(h - y),
    ensures
        map_m(tm_identity(), Pm { x: x, y: y, den: 1 }, (h, 1), (0, 1), (1, 1)) == Some(
            (x, h - y),
        ),
{
    let p = Pm { x: x, y: y, den: 1 };
    let q = tm_apply(tm_identity(), p);
    assert(q.x == x && q.y == y && q.den == 1);
    assert(pm_fits(q));
    let xs = rat_mul((q.x, q.den), (1, 1));
    assert(xs == (x, 1int));
    let hd = rat_sub((h, 1), (0, 1));
    assert(hd == (h, 1int));
    let yy = rat_sub(hd, (q.y, q.den));
    assert(yy == (h - y, 1int));
    let ys = rat_mul(yy, (1, 1));
    assert(ys == (h - y, 1int));
    crate::num::lemma_rhafz_int(x);
    crate::num::lemma_rhafz_int(h - y);
    assert(map_m(tm_identity(), p, (h, 1), (0, 1), (1, 1)) == Some((rhafz(x, 1), rhafz(h - y, 1))));
}

} // verus!
