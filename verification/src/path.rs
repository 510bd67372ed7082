//! Parsing the path mini-language into absolute commands.
//!
//! The parser resolves everything the converter does not want to see:
//! relative commands become absolute, horizontal and vertical lines
//! become plain lines, smooth curves get their reflected control
//! point, and implicit command repetition is expanded.  Elliptical
//! arcs need square roots, which this exact arithmetic cannot carry:
//! they yield a distinct unsupported-command error naming the
//! letter's position, so a caller may flatten arcs to cubic curves
//! before handing the attribute over.  Every parse error names the
//! byte position of the offending segment.

use vstd::prelude::*;
use crate::num::{q_add, q_sub, q_wf, qv, rat_add, rat_fits, rat_sub, Q};
use crate::contour::{cmd_wf, PathCommand};
use crate::parse::{num_parse_m, parse_number, sep_m, skip_sep};
use crate::ConvertError;

verus! {

/// The normalizer's running state: the last command letter (0 before
/// the first), the current point, the subpath start, and the control
/// points that smooth curves reflect.
#[derive(Clone, Copy, PartialEq, Eq, Structural, Debug)]
pub struct PathState {
    pub cmd: u8,
    pub cur_x: Q,
    pub cur_y: Q,
    pub st_x: Q,
    pub st_y: Q,
    pub rc_x: Q,
    pub rc_y: Q,
    pub rq_x: Q,
    pub rq_y: Q,
    pub had_cubic: bool,
    pub had_quad: bool,
}

pub open spec fn st_wf(st: PathState) -> bool {
    q_wf(st.cur_x) && q_wf(st.cur_y) && q_wf(st.st_x) && q_wf(st.st_y) && q_wf(st.rc_x) && q_wf(
        st.rc_y,
    ) && q_wf(st.rq_x) && q_wf(st.rq_y)
}

pub open spec fn init_state() -> PathState {
    PathState {
        cmd: 0,
        cur_x: Q { n: 0, d: 1 },
        cur_y: Q { n: 0, d: 1 },
        st_x: Q { n: 0, d: 1 },
        st_y: Q { n: 0, d: 1 },
        rc_x: Q { n: 0, d: 1 },
        rc_y: Q { n: 0, d: 1 },
        rq_x: Q { n: 0, d: 1 },
        rq_y: Q { n: 0, d: 1 },
        had_cubic: false,
        had_quad: false,
    }
}

/// The scalar carried by a fitting rational pair.
pub open spec fn qof(v: (int, int)) -> Q
    recommends
        rat_fits(v),
{
    Q { n: v.0 as i64, d: v.1 as i64 }
}

pub open spec fn is_alpha(b: u8) -> bool {
    (65 <= b <= 90) || (97 <= b <= 122)
}

/// Read one coordinate after a separator and make it absolute against
/// `cur` when the command is relative.
pub open spec fn coord_m(s: Seq<u8>, j: int, rel: bool, cur: (int, int)) -> Result<
    ((int, int), int),
    ConvertError,
> {
    match num_parse_m(s, sep_m(s, j)) {
        None => Err(ConvertError::MalformedPathData { at: sep_m(s, j) as usize }),
        Some(vj) => {
            if rel {
                let v = rat_add(cur, vj.0);
                if rat_fits(v) {
                    Ok((v, vj.1))
                } else {
                    Err(ConvertError::NumericOverflow)
                }
            } else {
                Ok((vj.0, vj.1))
            }
        },
    }
}

/// Reflect `prev` about `cur`: the point `2 cur - prev`.
pub open spec fn refl_m(cur: (int, int), prev: (int, int)) -> Option<(int, int)> {
    let two = rat_add(cur, cur);
    if !rat_fits(two) {
        None
    } else {
        let v = rat_sub(two, prev);
        if rat_fits(v) {
            Some(v)
        } else {
            None
        }
    }
}

/// Read one coordinate, as `coord_m` says.
fn coord(s: &[u8], j: usize, rel: bool, cur: Q) -> (r: Result<(Q, usize), ConvertError>)
    requires
        j <= s@.len(),
        q_wf(cur),
    ensures
        r matches Ok(vj) ==> ({
            &&& coord_m(s@, j as int, rel, qv(cur)) matches Ok(m)
            &&& qv(vj.0) == m.0
            &&& q_wf(vj.0)
            &&& vj.1 as int == m.1
            &&& j < vj.1 <= s@.len()
        }),
        r matches Err(e) ==> coord_m(s@, j as int, rel, qv(cur)) == Err::<
            ((int, int), int),
            ConvertError,
        >(e),
{
    let k = skip_sep(s, j);
    match parse_number(s, k) {
        None => Err(ConvertError::MalformedPathData { at: k }),
        Some((q, j2)) => {
            if rel {
                match q_add(cur, q) {
                    Some(v) => Ok((v, j2)),
                    None => Err(ConvertError::NumericOverflow),
                }
            } else {
                Ok((q, j2))
            }
        },
    }
}

/// Reflect `prev` about `cur`, as `refl_m` says.
fn refl(cur: Q, prev: Q) -> (r: Option<Q>)
    requires
        q_wf(cur),
        q_wf(prev),
    ensures
        r is Some <==> refl_m(qv(cur), qv(prev)) is Some,
        r matches Some(v) ==> q_wf(v) && refl_m(qv(cur), qv(prev)) == Some(qv(v)),
{
    match q_add(cur, cur) {
        None => None,
        Some(two) => q_sub(two, prev),
    }
}

/// Process one command group whose argument list starts at `i`: the
/// command's coordinates are read and made absolute, the emitted
/// command and the new state are returned with the index after the
/// last argument.
pub open spec fn path_step_m(s: Seq<u8>, i: int, b: u8, st: PathState) -> Result<
    (PathCommand, PathState, int),
    ConvertError,
> {
    let rel = b >= 97;
    if b == 77 || b == 109 {
        match coord_m(s, i, rel, qv(st.cur_x)) {
            Err(e) => Err(e),
            Ok(xm) => match coord_m(s, xm.1, rel, qv(st.cur_y)) {
                Err(e) => Err(e),
                Ok(ym) => {
                    let qx = qof(xm.0);
                    let qy = qof(ym.0);
                    Ok(
                        (
                            PathCommand::MoveTo { x: qx, y: qy },
                            PathState {
                                cmd: b,
                                cur_x: qx,
                                cur_y: qy,
                                st_x: qx,
                                st_y: qy,
                                had_cubic: false,
                                had_quad: false,
                                ..st
                            },
                            ym.1,
                        ),
                    )
                },
            },
        }
    } else if b == 76 || b == 108 {
        match coord_m(s, i, rel, qv(st.cur_x)) {
            Err(e) => Err(e),
            Ok(xm) => match coord_m(s, xm.1, rel, qv(st.cur_y)) {
                Err(e) => Err(e),
                Ok(ym) => {
                    let qx = qof(xm.0);
                    let qy = qof(ym.0);
                    Ok(
                        (
                            PathCommand::LineTo { x: qx, y: qy },
                            PathState {
                                cmd: b,
                                cur_x: qx,
                                cur_y: qy,
                                had_cubic: false,
                                had_quad: false,
                                ..st
                            },
                            ym.1,
                        ),
                    )
                },
            },
        }
    } else if b == 72 || b == 104 {
        match coord_m(s, i, rel, qv(st.cur_x)) {
            Err(e) => Err(e),
            Ok(xm) => {
                let qx = qof(xm.0);
                Ok(
                    (
                        PathCommand::LineTo { x: qx, y: st.cur_y },
                        PathState {
                            cmd: b,
                            cur_x: qx,
                            had_cubic: false,
                            had_quad: false,
                            ..st
                        },
                        xm.1,
                    ),
                )
            },
        }
    } else if b == 86 || b == 118 {
        match coord_m(s, i, rel, qv(st.cur_y)) {
            Err(e) => Err(e),
            Ok(ym) => {
                let qy = qof(ym.0);
                Ok(
                    (
                        PathCommand::LineTo { x: st.cur_x, y: qy },
                        PathState {
                            cmd: b,
                            cur_y: qy,
                            had_cubic: false,
                            had_quad: false,
                            ..st
                        },
                        ym.1,
                    ),
                )
            },
        }
    } else if b == 67 || b == 99 {
        match coord_m(s, i, rel, qv(st.cur_x)) {
            Err(e) => Err(e),
            Ok(x1m) => match coord_m(s, x1m.1, rel, qv(st.cur_y)) {
                Err(e) => Err(e),
                Ok(y1m) => match coord_m(s, y1m.1, rel, qv(st.cur_x)) {
                    Err(e) => Err(e),
                    Ok(x2m) => match coord_m(s, x2m.1, rel, qv(st.cur_y)) {
                        Err(e) => Err(e),
                        Ok(y2m) => match coord_m(s, y2m.1, rel, qv(st.cur_x)) {
                            Err(e) => Err(e),
                            Ok(xm) => match coord_m(s, xm.1, rel, qv(st.cur_y)) {
                                Err(e) => Err(e),
                                Ok(ym) => Ok(
                                    (
                                        PathCommand::CurveTo {
                                            x1: qof(x1m.0),
                                            y1: qof(y1m.0),
                                            x2: qof(x2m.0),
                                            y2: qof(y2m.0),
                                            x: qof(xm.0),
                                            y: qof(ym.0),
                                        },
                                        PathState {
                                            cmd: b,
                                            cur_x: qof(xm.0),
                                            cur_y: qof(ym.0),
                                            rc_x: qof(x2m.0),
                                            rc_y: qof(y2m.0),
                                            had_cubic: true,
                                            had_quad: false,
                                            ..st
                                        },
                                        ym.1,
                                    ),
                                ),
                            },
                        },
                    },
                },
            },
        }
    } else if b == 83 || b == 115 {
        let c1 = if st.had_cubic {
            refl_m((qv(st.cur_x)), (qv(st.rc_x)))
        } else {
            Some(qv(st.cur_x))
        };
        let c1y = if st.had_cubic {
            refl_m((qv(st.cur_y)), (qv(st.rc_y)))
        } else {
            Some(qv(st.cur_y))
        };
        if c1 is None || c1y is None {
            Err(ConvertError::NumericOverflow)
        } else {
            match coord_m(s, i, rel, qv(st.cur_x)) {
                Err(e) => Err(e),
                Ok(x2m) => match coord_m(s, x2m.1, rel, qv(st.cur_y)) {
                    Err(e) => Err(e),
                    Ok(y2m) => match coord_m(s, y2m.1, rel, qv(st.cur_x)) {
                        Err(e) => Err(e),
                        Ok(xm) => match coord_m(s, xm.1, rel, qv(st.cur_y)) {
                            Err(e) => Err(e),
                            Ok(ym) => Ok(
                                (
                                    PathCommand::CurveTo {
                                        x1: qof(c1->Some_0),
                                        y1: qof(c1y->Some_0),
                                        x2: qof(x2m.0),
                                        y2: qof(y2m.0),
                                        x: qof(xm.0),
                                        y: qof(ym.0),
                                    },
                                    PathState {
                                        cmd: b,
                                        cur_x: qof(xm.0),
                                        cur_y: qof(ym.0),
                                        rc_x: qof(x2m.0),
                                        rc_y: qof(y2m.0),
                                        had_cubic: true,
                                        had_quad: false,
                                        ..st
                                    },
                                    ym.1,
                                ),
                            ),
                        },
                    },
                },
            }
        }
    } else if b == 81 || b == 113 {
        match coord_m(s, i, rel, qv(st.cur_x)) {
            Err(e) => Err(e),
            Ok(x1m) => match coord_m(s, x1m.1, rel, qv(st.cur_y)) {
                Err(e) => Err(e),
                Ok(y1m) => match coord_m(s, y1m.1, rel, qv(st.cur_x)) {
                    Err(e) => Err(e),
                    Ok(xm) => match coord_m(s, xm.1, rel, qv(st.cur_y)) {
                        Err(e) => Err(e),
                        Ok(ym) => Ok(
                            (
                                PathCommand::Quadratic {
                                    x1: qof(x1m.0),
                                    y1: qof(y1m.0),
                                    x: qof(xm.0),
                                    y: qof(ym.0),
                                },
                                PathState {
                                    cmd: b,
                                    cur_x: qof(xm.0),
                                    cur_y: qof(ym.0),
                                    rq_x: qof(x1m.0),
                                    rq_y: qof(y1m.0),
                                    had_cubic: false,
                                    had_quad: true,
                                    ..st
                                },
                                ym.1,
                            ),
                        ),
                    },
                },
            },
        }
    } else if b == 84 || b == 116 {
        let c1 = if st.had_quad {
            refl_m((qv(st.cur_x)), (qv(st.rq_x)))
        } else {
            Some(qv(st.cur_x))
        };
        let c1y = if st.had_quad {
            refl_m((qv(st.cur_y)), (qv(st.rq_y)))
        } else {
            Some(qv(st.cur_y))
        };
        if c1 is None || c1y is None {
            Err(ConvertError::NumericOverflow)
        } else {
            match coord_m(s, i, rel, qv(st.cur_x)) {
                Err(e) => Err(e),
                Ok(xm) => match coord_m(s, xm.1, rel, qv(st.cur_y)) {
                    Err(e) => Err(e),
                    Ok(ym) => Ok(
                        (
                            PathCommand::Quadratic {
                                x1: qof(c1->Some_0),
                                y1: qof(c1y->Some_0),
                                x: qof(xm.0),
                                y: qof(ym.0),
                            },
                            PathState {
                                cmd: b,
                                cur_x: qof(xm.0),
                                cur_y: qof(ym.0),
                                rq_x: qof(c1->Some_0),
                                rq_y: qof(c1y->Some_0),
                                had_cubic: false,
                                had_quad: true,
                                ..st
                            },
                            ym.1,
                        ),
                    ),
                },
            }
        }
    } else if b == 90 || b == 122 {
        Ok(
            (
                PathCommand::ClosePath,
                PathState {
                    cmd: b,
                    cur_x: st.st_x,
                    cur_y: st.st_y,
                    had_cubic: false,
                    had_quad: false,
                    ..st
                },
                i,
            ),
        )
    } else {
        Err(ConvertError::MalformedPathData { at: if i >= 1 { (i - 1) as usize } else { 0 } })
    }
}

/// The command that an implicit repetition uses: extra coordinate
/// pairs after a move continue as lines; anything else repeats
/// itself.
pub open spec fn repeat_of(b: u8) -> u8 {
    if b == 77 {
        76
    } else if b == 109 {
        108
    } else {
        b
    }
}

/// Run the path parser from `i`: at each stop, a letter starts its
/// command group (the first must be a move), anything else repeats
/// the previous command.
pub open spec fn path_run_m(s: Seq<u8>, i: int, st: PathState) -> Result<
    Seq<PathCommand>,
    ConvertError,
>
    decreases s.len() - i,
{
    if !(0 <= i <= s.len()) {
        Err(ConvertError::MalformedPathData { at: 0 })
    } else {
        let i0 = sep_m(s, i);
        if i0 >= s.len() {
            Ok(Seq::empty())
        } else {
            let b = s[i0];
            if is_alpha(b) {
                if st.cmd == 0 && !(b == 77 || b == 109) {
                    Err(ConvertError::MalformedPathData { at: i0 as usize })
                } else if b == 65 || b == 97 {
                    Err(ConvertError::UnsupportedPathCommand { at: i0 as usize })
                } else {
                    match path_step_m(s, i0 + 1, b, st) {
                        Err(e) => Err(e),
                        Ok(cse) => {
                            if cse.2 > i && cse.2 <= s.len() {
                                match path_run_m(s, cse.2, cse.1) {
                                    Err(e) => Err(e),
                                    Ok(rest) => Ok(seq![cse.0] + rest),
                                }
                            } else {
                                Err(ConvertError::MalformedPathData { at: i0 as usize })
                            }
                        },
                    }
                }
            } else {
                if st.cmd == 0 || st.cmd == 90 || st.cmd == 122 {
                    Err(ConvertError::MalformedPathData { at: i0 as usize })
                } else {
                    match path_step_m(s, i0, repeat_of(st.cmd), st) {
                        Err(e) => Err(e),
                        Ok(cse) => {
                            if cse.2 > i && cse.2 <= s.len() {
                                match path_run_m(s, cse.2, cse.1) {
                                    Err(e) => Err(e),
                                    Ok(rest) => Ok(seq![cse.0] + rest),
                                }
                            } else {
                                Err(ConvertError::MalformedPathData { at: i0 as usize })
                            }
                        },
                    }
                }
            }
        }
    }
}

/// Process one command group, as `path_step_m` says.
fn path_step(s: &[u8], i: usize, b: u8, st: &PathState) -> (r: Result<
    (PathCommand, PathState, usize),
    ConvertError,
>)
    requires
        i <= s@.len(),
        st_wf(*st),
    ensures
        r matches Ok(cse) ==> ({
            &&& path_step_m(s@, i as int, b, *st) matches Ok(m)
            &&& m.0 == cse.0
            &&& m.1 == cse.1
            &&& m.2 == cse.2 as int
            &&& cmd_wf(cse.0)
            &&& st_wf(cse.1)
            &&& i <= cse.2 <= s@.len()
        }),
        r matches Err(e) ==> path_step_m(s@, i as int, b, *st) == Err::<
            (PathCommand, PathState, int),
            ConvertError,
        >(e),
{
    if b == 77 || b == 109 || b == 76 || b == 108 {
        step_move_line(s, i, b, st)
    } else if b == 72 || b == 104 {
        step_h(s, i, b, st)
    } else if b == 86 || b == 118 {
        step_v(s, i, b, st)
    } else if b == 67 || b == 99 {
        step_c(s, i, b, st)
    } else if b == 83 || b == 115 {
        step_s(s, i, b, st)
    } else if b == 81 || b == 113 {
        step_q(s, i, b, st)
    } else if b == 84 || b == 116 {
        step_t(s, i, b, st)
    } else if b == 90 || b == 122 {
        step_z(s, i, b, st)
    } else {
        Err(ConvertError::MalformedPathData { at: if i >= 1 { i - 1 } else { 0 } })
    }
}

fn step_move_line(s: &[u8], i: usize, b: u8, st: &PathState) -> (r: Result<
    (PathCommand, PathState, usize),
    ConvertError,
>)
    requires
        i <= s@.len(),
        st_wf(*st),
        b == 77 || b == 109 || b == 76 || b == 108,
    ensures
        r matches Ok(cse) ==> ({
            &&& path_step_m(s@, i as int, b, *st) matches Ok(m)
            &&& m.0 == cse.0
            &&& m.1 == cse.1
            &&& m.2 == cse.2 as int
            &&& cmd_wf(cse.0)
            &&& st_wf(cse.1)
            &&& i <= cse.2 <= s@.len()
        }),
        r matches Err(e) ==> path_step_m(s@, i as int, b, *st) == Err::<
            (PathCommand, PathState, int),
            ConvertError,
        >(e),
{
    let rel = b >= 97;
        let (qx, j1) = match coord(s, i, rel, st.cur_x) {
            Ok(v) => v,
            Err(e) => {
                return Err(e);
            },
        };
        let (qy, j2) = match coord(s, j1, rel, st.cur_y) {
            Ok(v) => v,
            Err(e) => {
                return Err(e);
            },
        };
        if b == 77 || b == 109 {
            Ok(
                (
                    PathCommand::MoveTo { x: qx, y: qy },
                    PathState {
                        cmd: b,
                        cur_x: qx,
                        cur_y: qy,
                        st_x: qx,
                        st_y: qy,
                        had_cubic: false,
                        had_quad: false,
                        ..*st
                    },
                    j2,
                ),
            )
        } else {
            Ok(
                (
                    PathCommand::LineTo { x: qx, y: qy },
                    PathState {
                        cmd: b,
                        cur_x: qx,
                        cur_y: qy,
                        had_cubic: false,
                        had_quad: false,
                        ..*st
                    },
                    j2,
                ),
            )
        }
}

fn step_h(s: &[u8], i: usize, b: u8, st: &PathState) -> (r: Result<
    (PathCommand, PathState, usize),
    ConvertError,
>)
    requires
        i <= s@.len(),
        st_wf(*st),
        b == 72 || b == 104,
    ensures
        r matches Ok(cse) ==> ({
            &&& path_step_m(s@, i as int, b, *st) matches Ok(m)
            &&& m.0 == cse.0
            &&& m.1 == cse.1
            &&& m.2 == cse.2 as int
            &&& cmd_wf(cse.0)
            &&& st_wf(cse.1)
            &&& i <= cse.2 <= s@.len()
        }),
        r matches Err(e) ==> path_step_m(s@, i as int, b, *st) == Err::<
            (PathCommand, PathState, int),
            ConvertError,
        >(e),
{
    let rel = b >= 97;
        let (qx, j1) = match coord(s, i, rel, st.cur_x) {
            Ok(v) => v,
            Err(e) => {
                return Err(e);
            },
        };
        Ok(
            (
                PathCommand::LineTo { x: qx, y: st.cur_y },
                PathState { cmd: b, cur_x: qx, had_cubic: false, had_quad: false, ..*st },
                j1,
            ),
        )
}

fn step_v(s: &[u8], i: usize, b: u8, st: &PathState) -> (r: Result<
    (PathCommand, PathState, usize),
    ConvertError,
>)
    requires
        i <= s@.len(),
        st_wf(*st),
        b == 86 || b == 118,
    ensures
        r matches Ok(cse) ==> ({
            &&& path_step_m(s@, i as int, b, *st) matches Ok(m)
            &&& m.0 == cse.0
            &&& m.1 == cse.1
            &&& m.2 == cse.2 as int
            &&& cmd_wf(cse.0)
            &&& st_wf(cse.1)
            &&& i <= cse.2 <= s@.len()
        }),
        r matches Err(e) ==> path_step_m(s@, i as int, b, *st) == Err::<
            (PathCommand, PathState, int),
            ConvertError,
        >(e),
{
    let rel = b >= 97;
        let (qy, j1) = match coord(s, i, rel, st.cur_y) {
            Ok(v) => v,
            Err(e) => {
                return Err(e);
            },
        };
        Ok(
            (
                PathCommand::LineTo { x: st.cur_x, y: qy },
                PathState { cmd: b, cur_y: qy, had_cubic: false, had_quad: false, ..*st },
                j1,
            ),
        )
}

fn step_c(s: &[u8], i: usize, b: u8, st: &PathState) -> (r: Result<
    (PathCommand, PathState, usize),
    ConvertError,
>)
    requires
        i <= s@.len(),
        st_wf(*st),
        b == 67 || b == 99,
    ensures
        r matches Ok(cse) ==> ({
            &&& path_step_m(s@, i as int, b, *st) matches Ok(m)
            &&& m.0 == cse.0
            &&& m.1 == cse.1
            &&& m.2 == cse.2 as int
            &&& cmd_wf(cse.0)
            &&& st_wf(cse.1)
            &&& i <= cse.2 <= s@.len()
        }),
        r matches Err(e) ==> path_step_m(s@, i as int, b, *st) == Err::<
            (PathCommand, PathState, int),
            ConvertError,
        >(e),
{
    let rel = b >= 97;
        let (x1, j1) = match coord(s, i, rel, st.cur_x) {
            Ok(v) => v,
            Err(e) => {
                return Err(e);
            },
        };
        let (y1, j2) = match coord(s, j1, rel, st.cur_y) {
            Ok(v) => v,
            Err(e) => {
                return Err(e);
            },
        };
        let (x2, j3) = match coord(s, j2, rel, st.cur_x) {
            Ok(v) => v,
            Err(e) => {
                return Err(e);
            },
        };
        let (y2, j4) = match coord(s, j3, rel, st.cur_y) {
            Ok(v) => v,
            Err(e) => {
                return Err(e);
            },
        };
        let (qx, j5) = match coord(s, j4, rel, st.cur_x) {
            Ok(v) => v,
            Err(e) => {
                return Err(e);
            },
        };
        let (qy, j6) = match coord(s, j5, rel, st.cur_y) {
            Ok(v) => v,
            Err(e) => {
                return Err(e);
            },
        };
        Ok(
            (
                PathCommand::CurveTo { x1: x1, y1: y1, x2: x2, y2: y2, x: qx, y: qy },
                PathState {
                    cmd: b,
                    cur_x: qx,
                    cur_y: qy,
                    rc_x: x2,
                    rc_y: y2,
                    had_cubic: true,
                    had_quad: false,
                    ..*st
                },
                j6,
            ),
        )
}

fn step_s(s: &[u8], i: usize, b: u8, st: &PathState) -> (r: Result<
    (PathCommand, PathState, usize),
    ConvertError,
>)
    requires
        i <= s@.len(),
        st_wf(*st),
        b == 83 || b == 115,
    ensures
        r matches Ok(cse) ==> ({
            &&& path_step_m(s@, i as int, b, *st) matches Ok(m)
            &&& m.0 == cse.0
            &&& m.1 == cse.1
            &&& m.2 == cse.2 as int
            &&& cmd_wf(cse.0)
            &&& st_wf(cse.1)
            &&& i <= cse.2 <= s@.len()
        }),
        r matches Err(e) ==> path_step_m(s@, i as int, b, *st) == Err::<
            (PathCommand, PathState, int),
            ConvertError,
        >(e),
{
    let rel = b >= 97;
        let c1x = if st.had_cubic {
            match refl(st.cur_x, st.rc_x) {
                Some(v) => v,
                None => {
                    return Err(ConvertError::NumericOverflow);
                },
            }
        } else {
            st.cur_x
        };
        let c1y = if st.had_cubic {
            match refl(st.cur_y, st.rc_y) {
                Some(v) => v,
                None => {
                    return Err(ConvertError::NumericOverflow);
                },
            }
        } else {
            st.cur_y
        };
        let (x2, j1) = match coord(s, i, rel, st.cur_x) {
            Ok(v) => v,
            Err(e) => {
                return Err(e);
            },
        };
        let (y2, j2) = match coord(s, j1, rel, st.cur_y) {
            Ok(v) => v,
            Err(e) => {
                return Err(e);
            },
        };
        let (qx, j3) = match coord(s, j2, rel, st.cur_x) {
            Ok(v) => v,
            Err(e) => {
                return Err(e);
            },
        };
        let (qy, j4) = match coord(s, j3, rel, st.cur_y) {
            Ok(v) => v,
            Err(e) => {
                return Err(e);
            },
        };
        Ok(
            (
                PathCommand::CurveTo { x1: c1x, y1: c1y, x2: x2, y2: y2, x: qx, y: qy },
                PathState {
                    cmd: b,
                    cur_x: qx,
                    cur_y: qy,
                    rc_x: x2,
                    rc_y: y2,
                    had_cubic: true,
                    had_quad: false,
                    ..*st
                },
                j4,
            ),
        )
}

fn step_q(s: &[u8], i: usize, b: u8, st: &PathState) -> (r: Result<
    (PathCommand, PathState, usize),
    ConvertError,
>)
    requires
        i <= s@.len(),
        st_wf(*st),
        b == 81 || b == 113,
    ensures
        r matches Ok(cse) ==> ({
            &&& path_step_m(s@, i as int, b, *st) matches Ok(m)
            &&& m.0 == cse.0
            &&& m.1 == cse.1
            &&& m.2 == cse.2 as int
            &&& cmd_wf(cse.0)
            &&& st_wf(cse.1)
            &&& i <= cse.2 <= s@.len()
        }),
        r matches Err(e) ==> path_step_m(s@, i as int, b, *st) == Err::<
            (PathCommand, PathState, int),
            ConvertError,
        >(e),
{
    let rel = b >= 97;
        let (x1, j1) = match coord(s, i, rel, st.cur_x) {
            Ok(v) => v,
            Err(e) => {
                return Err(e);
            },
        };
        let (y1, j2) = match coord(s, j1, rel, st.cur_y) {
            Ok(v) => v,
            Err(e) => {
                return Err(e);
            },
        };
        let (qx, j3) = match coord(s, j2, rel, st.cur_x) {
            Ok(v) => v,
            Err(e) => {
                return Err(e);
            },
        };
        let (qy, j4) = match coord(s, j3, rel, st.cur_y) {
            Ok(v) => v,
            Err(e) => {
                return Err(e);
            },
        };
        Ok(
            (
                PathCommand::Quadratic { x1: x1, y1: y1, x: qx, y: qy },
                PathState {
                    cmd: b,
                    cur_x: qx,
                    cur_y: qy,
                    rq_x: x1,
                    rq_y: y1,
                    had_cubic: false,
                    had_quad: true,
                    ..*st
                },
                j4,
            ),
        )
}

fn step_t(s: &[u8], i: usize, b: u8, st: &PathState) -> (r: Result<
    (PathCommand, PathState, usize),
    ConvertError,
>)
    requires
        i <= s@.len(),
        st_wf(*st),
        b == 84 || b == 116,
    ensures
        r matches Ok(cse) ==> ({
            &&& path_step_m(s@, i as int, b, *st) matches Ok(m)
            &&& m.0 == cse.0
            &&& m.1 == cse.1
            &&& m.2 == cse.2 as int
            &&& cmd_wf(cse.0)
            &&& st_wf(cse.1)
            &&& i <= cse.2 <= s@.len()
        }),
        r matches Err(e) ==> path_step_m(s@, i as int, b, *st) == Err::<
            (PathCommand, PathState, int),
            ConvertError,
        >(e),
{
    let rel = b >= 97;
        let c1x = if st.had_quad {
            match refl(st.cur_x, st.rq_x) {
                Some(v) => v,
                None => {
                    return Err(ConvertError::NumericOverflow);
                },
            }
        } else {
            st.cur_x
        };
        let c1y = if st.had_quad {
            match refl(st.cur_y, st.rq_y) {
                Some(v) => v,
                None => {
                    return Err(ConvertError::NumericOverflow);
                },
            }
        } else {
            st.cur_y
        };
        let (qx, j1) = match coord(s, i, rel, st.cur_x) {
            Ok(v) => v,
            Err(e) => {
                return Err(e);
            },
        };
        let (qy, j2) = match coord(s, j1, rel, st.cur_y) {
            Ok(v) => v,
            Err(e) => {
                return Err(e);
            },
        };
        Ok(
            (
                PathCommand::Quadratic { x1: c1x, y1: c1y, x: qx, y: qy },
                PathState {
                    cmd: b,
                    cur_x: qx,
                    cur_y: qy,
                    rq_x: c1x,
                    rq_y: c1y,
                    had_cubic: false,
                    had_quad: true,
                    ..*st
                },
                j2,
            ),
        )
}

fn step_z(s: &[u8], i: usize, b: u8, st: &PathState) -> (r: Result<
    (PathCommand, PathState, usize),
    ConvertError,
>)
    requires
        i <= s@.len(),
        st_wf(*st),
        b == 90 || b == 122,
    ensures
        r matches Ok(cse) ==> ({
            &&& path_step_m(s@, i as int, b, *st) matches Ok(m)
            &&& m.0 == cse.0
            &&& m.1 == cse.1
            &&& m.2 == cse.2 as int
            &&& cmd_wf(cse.0)
            &&& st_wf(cse.1)
            &&& i <= cse.2 <= s@.len()
        }),
        r matches Err(e) ==> path_step_m(s@, i as int, b, *st) == Err::<
            (PathCommand, PathState, int),
            ConvertError,
        >(e),
{
    let rel = b >= 97;
        Ok(
            (
                PathCommand::ClosePath,
                PathState {
                    cmd: b,
                    cur_x: st.st_x,
                    cur_y: st.st_y,
                    had_cubic: false,
                    had_quad: false,
                    ..*st
                },
                i,
            ),
        )
}

/// Run the path parser, appending the emitted commands, as
/// `path_run_m` says.
#[verifier::rlimit(100)]
fn path_run(s: &[u8], i: usize, st: &PathState, out: &mut Vec<PathCommand>) -> (r: Result<
    (),
    ConvertError,
>)
    requires
        i <= s@.len(),
        st_wf(*st),
    ensures
        r is Ok <==> path_run_m(s@, i as int, *st) is Ok,
        r is Ok ==> ({
            &&& path_run_m(s@, i as int, *st) matches Ok(cmds)
            &&& final(out)@ == old(out)@ + cmds
            &&& forall|k: int|
                old(out)@.len() <= k < final(out)@.len() ==> cmd_wf(#[trigger] final(out)@[k])
        }),
        r matches Err(e) ==> path_run_m(s@, i as int, *st) == Err::<Seq<PathCommand>, ConvertError>(
            e,
        ),
    decreases s@.len() - i,
{
    let i0 = skip_sep(s, i);
    if i0 >= s.len() {
        proof {
            assert(out@ =~= out@ + Seq::<PathCommand>::empty());
        }
        return Ok(());
    }
    let b = s[i0];
    let step = if (65 <= b && b <= 90) || (97 <= b && b <= 122) {
        if st.cmd == 0 && !(b == 77 || b == 109) {
            return Err(ConvertError::MalformedPathData { at: i0 });
        }
        if b == 65 || b == 97 {
            return Err(ConvertError::UnsupportedPathCommand { at: i0 });
        }
        path_step(s, i0 + 1, b, st)
    } else {
        if st.cmd == 0 || st.cmd == 90 || st.cmd == 122 {
            return Err(ConvertError::MalformedPathData { at: i0 });
        }
        let b2 = if st.cmd == 77 {
            76
        } else if st.cmd == 109 {
            108
        } else {
            st.cmd
        };
        path_step(s, i0, b2, st)
    };
    match step {
        Err(e) => Err(e),
        Ok((cmd, st2, end)) => {
            if end > i && end <= s.len() {
                let ghost out0 = out@;
                out.push(cmd);
                let r = path_run(s, end, &st2, out);
                match r {
                    Ok(()) => {
                        proof {
                            match path_run_m(s@, end as int, st2) {
                                Ok(rest) => {
                                    assert(out@ =~= out0 + (seq![cmd] + rest));
                                },
                                Err(_) => {},
                            }
                        }
                        Ok(())
                    },
                    Err(e) => Err(e),
                }
            } else {
                Err(ConvertError::MalformedPathData { at: i0 })
            }
        },
    }
}

/// The whole path attribute as absolute commands.
pub open spec fn path_parse_m(s: Seq<u8>) -> Result<Seq<PathCommand>, ConvertError> {
    path_run_m(s, 0, init_state())
}

/// Parse a path's `d` attribute into normalized absolute commands, as
/// `path_parse_m` says.
pub fn parse_path(s: &[u8]) -> (r: Result<Vec<PathCommand>, ConvertError>)
    ensures
        r is Ok <==> path_parse_m(s@) is Ok,
        r matches Ok(v) ==> ({
            &&& path_parse_m(s@) matches Ok(cmds)
            &&& v@ == cmds
            &&& forall|k: int| 0 <= k < v@.len() ==> cmd_wf(#[trigger] v@[k])
        }),
        r matches Err(e) ==> path_parse_m(s@) == Err::<Seq<PathCommand>, ConvertError>(e),
{
    let mut out: Vec<PathCommand> = Vec::new();
    let st = init_state_exec();
    match path_run(s, 0, &st, &mut out) {
        Ok(()) => {
            proof {
                match path_run_m(s@, 0, init_state()) {
                    Ok(cmds) => {
                        assert(out@ =~= cmds);
                    },
                    Err(_) => {},
                }
            }
            Ok(out)
        },
        Err(e) => Err(e),
    }
}

/// The initial parser state: origin current point, nothing seen yet.
fn init_state_exec() -> (r: PathState)
    ensures
        r == init_state(),
        st_wf(r),
{
    PathState {
        cmd: 0,
        cur_x: Q { n: 0, d: 1 },
        cur_y: Q { n: 0, d: 1 },
        st_x: Q { n: 0, d: 1 },
        st_y: Q { n: 0, d: 1 },
        rc_x: Q { n: 0, d: 1 },
        rc_y: Q { n: 0, d: 1 },
        rq_x: Q { n: 0, d: 1 },
        rq_y: Q { n: 0, d: 1 },
        had_cubic: false,
        had_quad: false,
    }
}

} // verus!
