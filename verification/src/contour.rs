//! Converting a normalized path command sequence into closed contours
//! of destination-space points.
//!
//! The converter keeps a current-contour buffer.  A move starts a new
//! contour (flushing a non-empty buffer), a line adds one corner point,
//! a cubic curve adds its two control points and its end point, a
//! quadratic curve is deliberately dropped, and a close flushes the
//! buffer.  A trailing unterminated buffer is flushed at the end, and a
//! contour whose first and last points share coordinates loses the
//! duplicate trailing point.

use vstd::prelude::*;
use crate::num::{in_lim, lemma_mul_lim, lemma_pos_mul, q_wf, qv, Q, LIM};
use crate::geom::{map_m, map_point, p_wf, pm_fits, pv, t_wf, tv, Pm, SrcPoint, Tm, Transform2D};

verus! {

/// The role a point plays on a contour: on the outline at a sharp
/// corner, on the outline with continuous tangents, or a Bezier
/// control point off the outline.
#[derive(Clone, Copy, PartialEq, Eq, Structural, Debug)]
pub enum PointKind {
    OnCurveCorner,
    OnCurveSmooth,
    OffCurve,
}

/// A single point of a contour in destination (font-unit) coordinates.
#[derive(Clone, Copy, PartialEq, Eq, Structural, Debug)]
pub struct ContourPoint {
    pub x: i64,
    pub y: i64,
    pub kind: PointKind,
    pub is_start: bool,
}

/// One closed outline loop: a non-empty ordered point sequence,
/// implicitly closed.
#[derive(Clone, PartialEq, Eq, Debug)]
pub struct Contour {
    pub points: Vec<ContourPoint>,
}

/// An absolute path command, coordinates in source units.
#[derive(Clone, Copy, PartialEq, Eq, Structural, Debug)]
pub enum PathCommand {
    MoveTo { x: Q, y: Q },
    LineTo { x: Q, y: Q },
    CurveTo { x1: Q, y1: Q, x2: Q, y2: Q, x: Q, y: Q },
    Quadratic { x1: Q, y1: Q, x: Q, y: Q },
    ClosePath,
}

pub open spec fn cmd_wf(c: PathCommand) -> bool {
    match c {
        PathCommand::MoveTo { x, y } => q_wf(x) && q_wf(y),
        PathCommand::LineTo { x, y } => q_wf(x) && q_wf(y),
        PathCommand::CurveTo { x1, y1, x2, y2, x, y } => q_wf(x1) && q_wf(y1) && q_wf(x2) && q_wf(
            y2,
        ) && q_wf(x) && q_wf(y),
        PathCommand::Quadratic { x1, y1, x, y } => q_wf(x1) && q_wf(y1) && q_wf(x) && q_wf(y),
        PathCommand::ClosePath => true,
    }
}

/// Two scalar coordinates as one source point over a common
/// denominator.
pub open spec fn pm_of(x: (int, int), y: (int, int)) -> Pm {
    Pm { x: x.0 * y.1, y: y.0 * x.1, den: x.1 * y.1 }
}

/// The full mapping of a coordinate pair into destination integers.
pub open spec fn map_pair_m(
    x: (int, int),
    y: (int, int),
    t: Tm,
    h: (int, int),
    dsc: (int, int),
    s: (int, int),
) -> Option<(int, int)> {
    let p = pm_of(x, y);
    if !pm_fits(p) {
        None
    } else {
        map_m(t, p, h, dsc, s)
    }
}

/// Join two scalar coordinates into one source point; `None` when the
/// common denominator leaves the magnitude cap.
pub fn pt_of(x: Q, y: Q) -> (r: Option<SrcPoint>)
    requires
        q_wf(x),
        q_wf(y),
    ensures
        r is Some <==> pm_fits(pm_of(qv(x), qv(y))),
        r matches Some(p) ==> p_wf(p) && pv(p) == pm_of(qv(x), qv(y)),
{
    proof {
        lemma_mul_lim(x.n as int, y.d as int);
        lemma_mul_lim(y.n as int, x.d as int);
        lemma_mul_lim(x.d as int, y.d as int);
        lemma_pos_mul(x.d as int, y.d as int);
    }
    let nx: i128 = (x.n as i128) * (y.d as i128);
    let ny: i128 = (y.n as i128) * (x.d as i128);
    let nd: i128 = (x.d as i128) * (y.d as i128);
    let lo: i128 = -(LIM as i128);
    let hi: i128 = LIM as i128;
    if nx < lo || nx > hi || ny < lo || ny > hi || nd > hi {
        None
    } else {
        Some(SrcPoint { x: nx as i64, y: ny as i64, den: nd as i64 })
    }
}

/// Map a coordinate pair through the transform and into destination
/// integers.
pub fn map_pair(x: Q, y: Q, t: &Transform2D, h: Q, dsc: Q, s: Q) -> (r: Option<(i64, i64)>)
    requires
        q_wf(x),
        q_wf(y),
        t_wf(*t),
        q_wf(h),
        q_wf(dsc),
        q_wf(s),
    ensures
        r is Some <==> map_pair_m(qv(x), qv(y), tv(*t), qv(h), qv(dsc), qv(s)) is Some,
        r matches Some(xy) ==> ({
            &&& map_pair_m(qv(x), qv(y), tv(*t), qv(h), qv(dsc), qv(s)) matches Some(m)
            &&& m.0 == xy.0 as int
            &&& m.1 == xy.1 as int
        }),
{
    match pt_of(x, y) {
        Some(p) => map_point(t, &p, h, dsc, s),
        None => None,
    }
}

/// One converter step: how a single command changes the output list
/// and the current-contour buffer.  `None` when a mapped coordinate
/// leaves the magnitude cap.
pub open spec fn conv_step(
    out: Seq<Seq<ContourPoint>>,
    cur: Seq<ContourPoint>,
    cmd: PathCommand,
    t: Tm,
    h: (int, int),
    dsc: (int, int),
    s: (int, int),
) -> Option<(Seq<Seq<ContourPoint>>, Seq<ContourPoint>)> {
    match cmd {
        PathCommand::MoveTo { x, y } => match map_pair_m(qv(x), qv(y), t, h, dsc, s) {
            Some(p) => {
                let pt = ContourPoint {
                    x: p.0 as i64,
                    y: p.1 as i64,
                    kind: PointKind::OnCurveCorner,
                    is_start: true,
                };
                if cur.len() > 0 {
                    Some((out.push(cur), seq![pt]))
                } else {
                    Some((out, seq![pt]))
                }
            },
            None => None,
        },
        PathCommand::LineTo { x, y } => match map_pair_m(qv(x), qv(y), t, h, dsc, s) {
            Some(p) => {
                let pt = ContourPoint {
                    x: p.0 as i64,
                    y: p.1 as i64,
                    kind: PointKind::OnCurveCorner,
                    is_start: false,
                };
                Some((out, cur.push(pt)))
            },
            None => None,
        },
        PathCommand::CurveTo { x1, y1, x2, y2, x, y } => match map_pair_m(
            qv(x1),
            qv(y1),
            t,
            h,
            dsc,
            s,
        ) {
            Some(p1) => match map_pair_m(qv(x2), qv(y2), t, h, dsc, s) {
                Some(p2) => match map_pair_m(qv(x), qv(y), t, h, dsc, s) {
                    Some(p) => {
                        let o1 = ContourPoint {
                            x: p1.0 as i64,
                            y: p1.1 as i64,
                            kind: PointKind::OffCurve,
                            is_start: false,
                        };
                        let o2 = ContourPoint {
                            x: p2.0 as i64,
                            y: p2.1 as i64,
                            kind: PointKind::OffCurve,
                            is_start: false,
                        };
                        let pe = ContourPoint {
                            x: p.0 as i64,
                            y: p.1 as i64,
                            kind: PointKind::OnCurveSmooth,
                            is_start: false,
                        };
                        Some((out, cur + seq![o1, o2, pe]))
                    },
                    None => None,
                },
                None => None,
            },
            None => None,
        },
        PathCommand::Quadratic { .. } => Some((out, cur)),
        PathCommand::ClosePath => {
            if cur.len() > 0 {
                Some((out.push(cur), Seq::empty()))
            } else {
                Some((out, cur))
            }
        },
    }
}

/// Run the converter from command `i` to the end.
pub open spec fn conv_run(
    cmds: Seq<PathCommand>,
    i: int,
    out: Seq<Seq<ContourPoint>>,
    cur: Seq<ContourPoint>,
    t: Tm,
    h: (int, int),
    dsc: (int, int),
    s: (int, int),
) -> Option<(Seq<Seq<ContourPoint>>, Seq<ContourPoint>)>
    decreases cmds.len() - i,
{
    if !(0 <= i < cmds.len()) {
        Some((out, cur))
    } else {
        match conv_step(out, cur, cmds[i], t, h, dsc, s) {
            Some(oc) => conv_run(cmds, i + 1, oc.0, oc.1, t, h, dsc, s),
            None => None,
        }
    }
}

/// Closing-point elision: when first and last point coordinates agree,
/// the duplicate trailing point is dropped.
pub open spec fn elide(c: Seq<ContourPoint>) -> Seq<ContourPoint> {
    if c.len() > 1 && c[0].x == c[c.len() - 1].x && c[0].y == c[c.len() - 1].y {
        c.drop_last()
    } else {
        c
    }
}

/// The whole conversion of a command sequence: run all commands, flush
/// a non-empty trailing buffer, then apply closing-point elision to
/// every contour.
pub open spec fn convert_m(
    cmds: Seq<PathCommand>,
    t: Tm,
    h: (int, int),
    dsc: (int, int),
    s: (int, int),
) -> Option<Seq<Seq<ContourPoint>>> {
    match conv_run(cmds, 0, Seq::empty(), Seq::empty(), t, h, dsc, s) {
        Some(oc) => {
            let all = if oc.1.len() > 0 {
                oc.0.push(oc.1)
            } else {
                oc.0
            };
            Some(all.map_values(|c: Seq<ContourPoint>| elide(c)))
        },
        None => None,
    }
}

/// Apply closing-point elision to the buffer in place.
fn elide_vec(c: &mut Vec<ContourPoint>)
    ensures
        final(c)@ == elide(old(c)@),
{
    if c.len() > 1 {
        let first = c[0];
        let last = c[c.len() - 1];
        if first.x == last.x && first.y == last.y {
            c.pop();
            assert(c@ =~= elide(old(c)@));
        }
    }
}

/// Convert a normalized command sequence into contours in destination
/// space; `None` when an exact coordinate leaves the magnitude cap.
pub fn convert_commands(cmds: &Vec<PathCommand>, t: &Transform2D, h: Q, dsc: Q, s: Q) -> (r: Option<
    Vec<Contour>,
>)
    requires
        forall|i: int| 0 <= i < cmds@.len() ==> cmd_wf(#[trigger] cmds@[i]),
        t_wf(*t),
        q_wf(h),
        q_wf(dsc),
        q_wf(s),
    ensures
        r is Some <==> convert_m(cmds@, tv(*t), qv(h), qv(dsc), qv(s)) is Some,
        r matches Some(v) ==> ({
            &&& convert_m(cmds@, tv(*t), qv(h), qv(dsc), qv(s)) matches Some(m)
            &&& v@.len() == m.len()
            &&& forall|i: int| 0 <= i < m.len() ==> (#[trigger] v@[i]).points@ == m[i]
        }),
{
    let ghost tm = tv(*t);
    let ghost hm = qv(h);
    let ghost dm = qv(dsc);
    let ghost sm = qv(s);
    let mut out: Vec<Contour> = Vec::new();
    let mut cur: Vec<ContourPoint> = Vec::new();
    let ghost mut out_m: Seq<Seq<ContourPoint>> = Seq::empty();
    let mut i: usize = 0;
    while i < cmds.len()
        invariant
            0 <= i <= cmds@.len(),
            forall|k: int| 0 <= k < cmds@.len() ==> cmd_wf(#[trigger] cmds@[k]),
            t_wf(*t),
            q_wf(h),
            q_wf(dsc),
            q_wf(s),
            tm == tv(*t),
            hm == qv(h),
            dm == qv(dsc),
            sm == qv(s),
            out@.len() == out_m.len(),
            forall|k: int| 0 <= k < out_m.len() ==> (#[trigger] out@[k]).points@ == elide(out_m[k]),
            conv_run(cmds@, 0, Seq::empty(), Seq::empty(), tm, hm, dm, sm) == conv_run(
                cmds@,
                i as int,
                out_m,
                cur@,
                tm,
                hm,
                dm,
                sm,
            ),
        decreases cmds@.len() - i,
    {
        let cmd = cmds[i];
        match cmd {
            PathCommand::MoveTo { x, y } => {
                match map_pair(x, y, t, h, dsc, s) {
                    Some(p) => {
                        let pt = ContourPoint {
                            x: p.0,
                            y: p.1,
                            kind: PointKind::OnCurveCorner,
                            is_start: true,
                        };
                        if cur.len() > 0 {
                            let mut done = cur;
                            proof {
                                out_m = out_m.push(done@);
                            }
                            elide_vec(&mut done);
                            out.push(Contour { points: done });
                            cur = Vec::new();
                        }
                        cur.push(pt);
                        assert(cur@ =~= seq![pt]);
                    },
                    None => {
                        return None;
                    },
                }
            },
            PathCommand::LineTo { x, y } => {
                match map_pair(x, y, t, h, dsc, s) {
                    Some(p) => {
                        let pt = ContourPoint {
                            x: p.0,
                            y: p.1,
                            kind: PointKind::OnCurveCorner,
                            is_start: false,
                        };
                        cur.push(pt);
                    },
                    None => {
                        return None;
                    },
                }
            },
            PathCommand::CurveTo { x1, y1, x2, y2, x, y } => {
                let p1 = match map_pair(x1, y1, t, h, dsc, s) {
                    Some(p) => p,
                    None => {
                        return None;
                    },
                };
                let p2 = match map_pair(x2, y2, t, h, dsc, s) {
                    Some(p) => p,
                    None => {
                        return None;
                    },
                };
                let pe = match map_pair(x, y, t, h, dsc, s) {
                    Some(p) => p,
                    None => {
                        return None;
                    },
                };
                let o1 = ContourPoint {
                    x: p1.0,
                    y: p1.1,
                    kind: PointKind::OffCurve,
                    is_start: false,
                };
                let o2 = ContourPoint {
                    x: p2.0,
                    y: p2.1,
                    kind: PointKind::OffCurve,
                    is_start: false,
                };
                let pp = ContourPoint {
                    x: pe.0,
                    y: pe.1,
                    kind: PointKind::OnCurveSmooth,
                    is_start: false,
                };
                let ghost cur0 = cur@;
                cur.push(o1);
                cur.push(o2);
                cur.push(pp);
                assert(cur@ =~= cur0 + seq![o1, o2, pp]);
            },
            PathCommand::Quadratic { .. } => {},
            PathCommand::ClosePath => {
                if cur.len() > 0 {
                    let mut done = cur;
                    proof {
                        out_m = out_m.push(done@);
                    }
                    elide_vec(&mut done);
                    out.push(Contour { points: done });
                    cur = Vec::new();
                    assert(cur@ =~= Seq::<ContourPoint>::empty());
                }
            },
        }
        i = i + 1;
    }
    if cur.len() > 0 {
        let mut done = cur;
        proof {
            out_m = out_m.push(done@);
        }
        elide_vec(&mut done);
        out.push(Contour { points: done });
        proof {
            let all = out_m;
            assert(convert_m(cmds@, tm, hm, dm, sm) matches Some(m) && m =~= all.map_values(
                |c: Seq<ContourPoint>| elide(c),
            ));
        }
    } else {
        proof {
            let all = out_m;
            assert(convert_m(cmds@, tm, hm, dm, sm) matches Some(m) && m =~= all.map_values(
                |c: Seq<ContourPoint>| elide(c),
            ));
        }
    }
    Some(out)
}

/// A cubic curve command emits exactly three points: two off-curve
/// control points and then one smooth on-curve point, appended in that
/// order, with the output list untouched.
pub proof fn lemma_cubic_emits_three(
    out: Seq<Seq<ContourPoint>>,
    cur: Seq<ContourPoint>,
    cmd: PathCommand,
    t: Tm,
    h: (int, int),
    dsc: (int, int),
    s: (int, int),
)
    requires
        cmd is CurveTo,
    ensures
        conv_step(out, cur, cmd, t, h, dsc, s) matches Some(oc) ==> ({
            &&& oc.0 == out
            &&& oc.1.len() == cur.len() + 3
            &&& oc.1.subrange(0, cur.len() as int) =~= cur
            &&& oc.1[cur.len() as int].kind == PointKind::OffCurve
            &&& !oc.1[cur.len() as int].is_start
            &&& oc.1[cur.len() as int + 1].kind == PointKind::OffCurve
            &&& !oc.1[cur.len() as int + 1].is_start
            &&& oc.1[cur.len() as int + 2].kind == PointKind::OnCurveSmooth
            &&& !oc.1[cur.len() as int + 2].is_start
        }),
{
}

/// A quadratic curve command emits no points and leaves both the
/// output list and the current buffer exactly as they were.
pub proof fn lemma_quadratic_emits_nothing(
    out: Seq<Seq<ContourPoint>>,
    cur: Seq<ContourPoint>,
    cmd: PathCommand,
    t: Tm,
    h: (int, int),
    dsc: (int, int),
    s: (int, int),
)
    requires
        cmd is Quadratic,
    ensures
        conv_step(out, cur, cmd, t, h, dsc, s) == Some((out, cur)),
{
}

/// Running a tail of line commands ending in a close, from a non-empty
/// buffer, flushes exactly one more contour holding the buffer plus
/// one point per line.
proof fn lemma_line_close_run(
    cmds: Seq<PathCommand>,
    i: int,
    out: Seq<Seq<ContourPoint>>,
    cur: Seq<ContourPoint>,
    t: Tm,
    h: (int, int),
    dsc: (int, int),
    s: (int, int),
)
    requires
        0 <= i < cmds.len(),
        forall|k: int| i <= k < cmds.len() - 1 ==> (#[trigger] cmds[k]) is LineTo,
        cmds[cmds.len() - 1] is ClosePath,
        cur.len() > 0,
    ensures
        conv_run(cmds, i, out, cur, t, h, dsc, s) matches Some(oc) ==> ({
            &&& oc.0.len() == out.len() + 1
            &&& oc.0[out.len() as int].len() == cur.len() + (cmds.len() - 1 - i)
            &&& oc.0[out.len() as int].subrange(0, cur.len() as int) =~= cur
            &&& oc.1.len() == 0
        }),
    decreases cmds.len() - i,
{
    if i == cmds.len() - 1 {
        assert(cur.subrange(0, cur.len() as int) =~= cur);
        let o2 = out.push(cur);
        assert(conv_run(cmds, i + 1, o2, Seq::<ContourPoint>::empty(), t, h, dsc, s) == Some(
            (o2, Seq::<ContourPoint>::empty()),
        ));
    } else {
        match cmds[i] {
            PathCommand::LineTo { x, y } => {
                match map_pair_m(qv(x), qv(y), t, h, dsc, s) {
                    Some(p) => {
                        let pt = ContourPoint {
                            x: p.0 as i64,
                            y: p.1 as i64,
                            kind: PointKind::OnCurveCorner,
                            is_start: false,
                        };
                        lemma_line_close_run(cmds, i + 1, out, cur.push(pt), t, h, dsc, s);
                        match conv_run(cmds, i + 1, out, cur.push(pt), t, h, dsc, s) {
                            Some(oc) => {
                                assert(cur.push(pt).subrange(0, cur.len() as int) =~= cur);
                                assert(oc.0[out.len() as int].subrange(0, cur.len() as int) =~= oc.0[
                                    out.len() as int
                                ].subrange(0, cur.len() as int + 1).subrange(0, cur.len() as int));
                            },
                            None => {},
                        }
                    },
                    None => {},
                }
            },
            _ => {
                assert(false);
            },
        }
    }
}

/// A path of one move, `N` lines and one close yields exactly one
/// contour of `N + 1` points before closing-point elision; elision
/// drops the trailing point exactly when the path repeats the start
/// coordinate at its end.
pub proof fn lemma_polyline_contours(
    cmds: Seq<PathCommand>,
    t: Tm,
    h: (int, int),
    dsc: (int, int),
    s: (int, int),
)
    requires
        cmds.len() >= 2,
        cmds[0] is MoveTo,
        forall|k: int| 1 <= k < cmds.len() - 1 ==> (#[trigger] cmds[k]) is LineTo,
        cmds[cmds.len() - 1] is ClosePath,
    ensures
        conv_run(cmds, 0, Seq::empty(), Seq::empty(), t, h, dsc, s) matches Some(oc) ==> ({
            &&& oc.0.len() == 1
            &&& oc.1.len() == 0
            &&& oc.0[0].len() == cmds.len() - 1
            &&& convert_m(cmds, t, h, dsc, s) == Some(seq![elide(oc.0[0])])
            &&& (cmds.len() > 2 && oc.0[0][0].x == oc.0[0][cmds.len() - 2].x && oc.0[0][0].y
                == oc.0[0][cmds.len() - 2].y) ==> elide(oc.0[0]).len() == cmds.len() - 2
            &&& (cmds.len() > 2 && !(oc.0[0][0].x == oc.0[0][cmds.len() - 2].x && oc.0[0][0].y
                == oc.0[0][cmds.len() - 2].y)) ==> elide(oc.0[0]).len() == cmds.len() - 1
        }),
{
    let e0 = Seq::<Seq<ContourPoint>>::empty();
    let c0 = Seq::<ContourPoint>::empty();
    match cmds[0] {
        PathCommand::MoveTo { x, y } => {
            match map_pair_m(qv(x), qv(y), t, h, dsc, s) {
                Some(p) => {
                    let pt = ContourPoint {
                        x: p.0 as i64,
                        y: p.1 as i64,
                        kind: PointKind::OnCurveCorner,
                        is_start: true,
                    };
                    lemma_line_close_run(cmds, 1, e0, seq![pt], t, h, dsc, s);
                    match conv_run(cmds, 1, e0, seq![pt], t, h, dsc, s) {
                        Some(oc) => {
                            let all = oc.0;
                            assert(convert_m(cmds, t, h, dsc, s) matches Some(m) && m
                                =~= seq![elide(all[0])]);
                        },
                        None => {},
                    }
                },
                None => {},
            }
        },
        _ => {
            assert(false);
        },
    }
}

/// An extracted path event, already in destination coordinates.
#[derive(Clone, Copy, PartialEq, Eq, Debug)]
pub enum GlifEvent {
    MoveTo(i64, i64),
    LineTo(i64, i64),
    CurveTo((i64, i64), (i64, i64), (i64, i64)),
    ClosePath,
}

/// How one event changes the contour list and the current buffer: a
/// move starts a new contour, a close is kept in the contour it ends,
/// anything else extends the current buffer.
pub open spec fn seg_step(out: Seq<Seq<GlifEvent>>, cur: Seq<GlifEvent>, ev: GlifEvent) -> (
    Seq<Seq<GlifEvent>>,
    Seq<GlifEvent>,
) {
    match ev {
        GlifEvent::MoveTo(_, _) => {
            if cur.len() > 0 {
                (out.push(cur), seq![ev])
            } else {
                (out, seq![ev])
            }
        },
        GlifEvent::ClosePath => (out.push(cur.push(ev)), Seq::empty()),
        _ => (out, cur.push(ev)),
    }
}

/// Run the splitter from event `i` to the end.
pub open spec fn seg_run(events: Seq<GlifEvent>, i: int, out: Seq<Seq<GlifEvent>>, cur: Seq<
    GlifEvent,
>) -> (Seq<Seq<GlifEvent>>, Seq<GlifEvent>)
    decreases events.len() - i,
{
    if !(0 <= i < events.len()) {
        (out, cur)
    } else {
        let oc = seg_step(out, cur, events[i]);
        seg_run(events, i + 1, oc.0, oc.1)
    }
}

/// The contours an event sequence splits into, a trailing non-empty
/// buffer flushed as a final contour.
pub open spec fn segments_model(events: Seq<GlifEvent>) -> Seq<Seq<GlifEvent>> {
    let oc = seg_run(events, 0, Seq::empty(), Seq::empty());
    if oc.1.len() > 0 {
        oc.0.push(oc.1)
    } else {
        oc.0
    }
}

pub open spec fn vv(s: Seq<Vec<GlifEvent>>) -> Seq<Seq<GlifEvent>> {
    s.map_values(|v: Vec<GlifEvent>| v@)
}

/// Split a flat event sequence into contours: each move starts a new
/// contour, each close ends one (keeping the close event inside it),
/// and a trailing unterminated contour is kept.
pub fn segments_to_contours(events: Vec<GlifEvent>) -> (r: Vec<Vec<GlifEvent>>)
    ensures
        r@.len() == segments_model(events@).len(),
        forall|i: int|
            0 <= i < r@.len() ==> (#[trigger] r@[i])@ == segments_model(events@)[i],
{
    let mut out: Vec<Vec<GlifEvent>> = Vec::new();
    let mut cur: Vec<GlifEvent> = Vec::new();
    assert(vv(out@) =~= Seq::<Seq<GlifEvent>>::empty());
    let mut i: usize = 0;
    while i < events.len()
        invariant
            0 <= i <= events@.len(),
            seg_run(events@, 0, Seq::empty(), Seq::empty()) == seg_run(
                events@,
                i as int,
                vv(out@),
                cur@,
            ),
        decreases events@.len() - i,
    {
        let ev = events[i];
        let ghost out0 = vv(out@);
        let ghost cur0 = cur@;
        match ev {
            GlifEvent::MoveTo(_, _) => {
                if cur.len() > 0 {
                    out.push(cur);
                    cur = Vec::new();
                    assert(vv(out@) =~= out0.push(cur0));
                }
                cur.push(ev);
                assert(cur@ =~= seq![ev]);
            },
            GlifEvent::ClosePath => {
                cur.push(ev);
                out.push(cur);
                cur = Vec::new();
                assert(vv(out@) =~= out0.push(cur0.push(ev)));
                assert(cur@ =~= Seq::<GlifEvent>::empty());
            },
            _ => {
                cur.push(ev);
            },
        }
        i = i + 1;
    }
    if cur.len() > 0 {
        let ghost out0 = vv(out@);
        let ghost cur0 = cur@;
        out.push(cur);
        assert(vv(out@) =~= out0.push(cur0));
    }
    proof {
        assert(forall|k: int|
            0 <= k < out@.len() ==> (#[trigger] out@[k])@ == vv(out@)[k]);
    }
    out
}

} // verus!
