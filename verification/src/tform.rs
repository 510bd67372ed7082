//! Parsing the transform attribute: a list of `matrix`, `translate`
//! and `scale` functions, composed left to right onto the identity.
//!
//! The rotation and skew functions need trigonometry, which this
//! exact-arithmetic model cannot carry: they yield a distinct
//! unsupported-transform error naming the keyword's position, so a
//! caller may decompose them into an equivalent `matrix(..)` form
//! before handing the attribute over.

use vstd::prelude::*;
use crate::num::{in_lim, lemma_mul_lim, q_wf, qv, Q, LIM};
use crate::geom::{
    compose, pm_fits, pv, t_wf, tm_compose, tm_fits, tm_identity, tv, Pm, SrcPoint, Tm,
    Transform2D,
};
use crate::contour::{pm_of, pt_of};
use crate::parse::{num_parse_m, parse_number, sep_m, skip_sep, skip_ws, skip_ws_m};
use crate::ConvertError;

verus! {

/// The transform whose rows are the three points `p1 = (a, b)`,
/// `p2 = (c, d)`, `p3 = (e, f)`, brought to one common denominator.
pub open spec fn tm_from_points_m(p1: Pm, p2: Pm, p3: Pm) -> Option<Tm> {
    let d12 = p1.den * p2.den;
    if !(d12 <= LIM as int) {
        None
    } else {
        let dall = d12 * p3.den;
        if !(dall <= LIM as int) {
            None
        } else {
            let m23 = p2.den * p3.den;
            let m13 = p1.den * p3.den;
            let a = p1.x * m23;
            let b = p1.y * m23;
            let c = p2.x * m13;
            let d = p2.y * m13;
            let e = p3.x * d12;
            let f = p3.y * d12;
            if in_lim(a) && in_lim(b) && in_lim(c) && in_lim(d) && in_lim(e) && in_lim(f) {
                Some(Tm { a: a, b: b, c: c, d: d, e: e, f: f, den: dall })
            } else {
                None
            }
        }
    }
}

/// Build a transform from three source points, as `tm_from_points_m`
/// says.
pub fn tm_from_points(p1: &SrcPoint, p2: &SrcPoint, p3: &SrcPoint) -> (r: Option<Transform2D>)
    requires
        crate::geom::p_wf(*p1),
        crate::geom::p_wf(*p2),
        crate::geom::p_wf(*p3),
    ensures
        r is Some <==> tm_from_points_m(pv(*p1), pv(*p2), pv(*p3)) is Some,
        r matches Some(t) ==> t_wf(t) && tm_from_points_m(pv(*p1), pv(*p2), pv(*p3)) == Some(
            tv(t),
        ),
{
    proof {
        lemma_mul_lim(p1.den as int, p2.den as int);
        crate::num::lemma_pos_mul(p1.den as int, p2.den as int);
    }
    let d12: i128 = (p1.den as i128) * (p2.den as i128);
    if d12 > LIM as i128 {
        return None;
    }
    proof {
        lemma_mul_lim(d12 as int, p3.den as int);
        crate::num::lemma_pos_mul(d12 as int, p3.den as int);
        lemma_mul_lim(p2.den as int, p3.den as int);
        crate::num::lemma_pos_mul(p2.den as int, p3.den as int);
        lemma_mul_lim(p1.den as int, p3.den as int);
        crate::num::lemma_pos_mul(p1.den as int, p3.den as int);
    }
    let dall: i128 = d12 * (p3.den as i128);
    if dall > LIM as i128 {
        return None;
    }
    let m23: i128 = (p2.den as i128) * (p3.den as i128);
    let m13: i128 = (p1.den as i128) * (p3.den as i128);
    proof {
        assert(m23 <= dall && m13 <= dall) by (nonlinear_arith)
            requires
                m23 == (p2.den as int) * (p3.den as int),
                m13 == (p1.den as int) * (p3.den as int),
                dall == ((p1.den as int) * (p2.den as int)) * (p3.den as int),
                p1.den as int >= 1,
                p2.den as int >= 1,
                p3.den as int >= 1,
                m23 >= 0,
                m13 >= 0,
        ;
        lemma_mul_lim(p1.x as int, m23 as int);
        lemma_mul_lim(p1.y as int, m23 as int);
        lemma_mul_lim(p2.x as int, m13 as int);
        lemma_mul_lim(p2.y as int, m13 as int);
        lemma_mul_lim(p3.x as int, d12 as int);
        lemma_mul_lim(p3.y as int, d12 as int);
    }
    let a: i128 = (p1.x as i128) * m23;
    let b: i128 = (p1.y as i128) * m23;
    let c: i128 = (p2.x as i128) * m13;
    let d: i128 = (p2.y as i128) * m13;
    let e: i128 = (p3.x as i128) * d12;
    let f: i128 = (p3.y as i128) * d12;
    let lo: i128 = -(LIM as i128);
    let hi: i128 = LIM as i128;
    if a < lo || a > hi || b < lo || b > hi || c < lo || c > hi || d < lo || d > hi || e < lo
        || e > hi || f < lo || f > hi {
        return None;
    }
    Some(
        Transform2D {
            a: a as i64,
            b: b as i64,
            c: c as i64,
            d: d as i64,
            e: e as i64,
            f: f as i64,
            den: dall as i64,
        },
    )
}

/// Does `s[i..]` start with the keyword `kw`?
pub open spec fn kw_at(s: Seq<u8>, i: int, kw: Seq<u8>) -> bool {
    0 <= i && i + kw.len() <= s.len() && s.subrange(i, i + kw.len()) == kw
}

/// Compare the bytes at `i` against a keyword.
fn match_kw(s: &[u8], i: usize, kw: &Vec<u8>) -> (r: bool)
    requires
        i <= s@.len(),
    ensures
        r == kw_at(s@, i as int, kw@),
{
    if s.len() - i < kw.len() {
        proof {
            assert(i + kw@.len() > s@.len());
        }
        return false;
    }
    let slen = s.len();
    let mut k: usize = 0;
    while k < kw.len()
        invariant
            0 <= k <= kw@.len(),
            i + kw@.len() <= s@.len(),
            s@.len() == slen,
            forall|j: int| 0 <= j < k ==> s@[i + j] == kw@[j],
        decreases kw@.len() - k,
    {
        if s[i + k] != kw[k] {
            proof {
                let u = s@.subrange(i as int, i as int + kw@.len());
                if u == kw@ {
                    assert(u[k as int] == kw@[k as int]);
                }
            }
            return false;
        }
        k = k + 1;
    }
    proof {
        assert(s@.subrange(i as int, i as int + kw@.len()) =~= kw@);
    }
    true
}

/// Skip whitespace and consume an opening parenthesis: the index just
/// after it.
pub open spec fn paren_open_m(s: Seq<u8>, i: int) -> Option<int> {
    let a = skip_ws_m(s, i);
    if 0 <= a < s.len() && s[a] == 40 {
        Some(a + 1)
    } else {
        None
    }
}

fn paren_open(s: &[u8], i: usize) -> (r: Option<usize>)
    requires
        i <= s@.len(),
    ensures
        r is Some <==> paren_open_m(s@, i as int) is Some,
        r matches Some(j) ==> paren_open_m(s@, i as int) == Some(j as int) && i < j <= s@.len(),
{
    let a = skip_ws(s, i);
    if a < s.len() && s[a] == 40 {
        Some(a + 1)
    } else {
        None
    }
}

/// Parse a parenthesized argument list of `n` numbers (1 to 6) after
/// index `i`: `ws* ( args ws* )`, arguments separated by comma or
/// whitespace.  Yields the numbers read and the index after `)`.
pub open spec fn args_parse_m(s: Seq<u8>, i: int, n: int) -> Option<(Seq<(int, int)>, int)>
    decreases n,
{
    if n <= 0 {
        let c = skip_ws_m(s, i);
        if 0 <= c < s.len() && s[c] == 41 {
            Some((Seq::empty(), c + 1))
        } else {
            None
        }
    } else {
        match num_parse_m(s, sep_m(s, i)) {
            None => None,
            Some(vj) => match args_parse_m(s, vj.1, n - 1) {
                None => None,
                Some(rest) => Some((seq![vj.0] + rest.0, rest.1)),
            },
        }
    }
}

/// Parse `n` arguments and a closing parenthesis, as `args_parse_m`
/// says.
fn parse_args(s: &[u8], i: usize, n: usize, out: &mut Vec<Q>) -> (r: Option<usize>)
    requires
        i <= s@.len(),
    ensures
        r is Some <==> args_parse_m(s@, i as int, n as int) is Some,
        r matches Some(j) ==> ({
            &&& args_parse_m(s@, i as int, n as int) matches Some(m)
            &&& j as int == m.1
            &&& i < j <= s@.len()
            &&& m.0.len() == n as int
            &&& final(out)@.len() == old(out)@.len() + n as int
            &&& final(out)@.subrange(0, old(out)@.len() as int) == old(out)@
            &&& forall|k: int|
                old(out)@.len() <= k < final(out)@.len() ==> qv(#[trigger] final(out)@[k]) == m.0[
                    k - old(out)@.len()
                ] && q_wf(final(out)@[k])
        }),
    decreases n,
{
    if n == 0 {
        let c = skip_ws(s, i);
        if c < s.len() && s[c] == 41 {
            proof {
                assert(out@.subrange(0, out@.len() as int) =~= out@);
            }
            Some(c + 1)
        } else {
            None
        }
    } else {
        let k = skip_sep(s, i);
        match parse_number(s, k) {
            None => None,
            Some((q, j)) => {
                let ghost out0 = out@;
                out.push(q);
                let r = parse_args(s, j, n - 1, out);
                match r {
                    Some(j2) => {
                        proof {
                            let mid = out0.push(q);
                            assert(out@.subrange(0, out0.len() as int) =~= out@.subrange(
                                0,
                                mid.len() as int,
                            ).subrange(0, out0.len() as int));
                            assert(out@[out0.len() as int] == out@.subrange(
                                0,
                                mid.len() as int,
                            )[out0.len() as int]);
                            match args_parse_m(s@, i as int, n as int) {
                                Some(m) => {
                                    match args_parse_m(s@, j as int, n - 1) {
                                        Some(restm) => {
                                            assert(m.0 =~= seq![qv(q)] + restm.0);
                                            assert(qv(out@[out0.len() as int]) == m.0[0]);
                                            assert forall|k: int|
                                                out0.len() <= k < out@.len() implies qv(
                                                #[trigger] out@[k],
                                            ) == m.0[k - out0.len()] && q_wf(out@[k]) by {
                                                if k > out0.len() {
                                                    assert(m.0[k - out0.len()] == restm.0[
                                                        k - out0.len() - 1
                                                    ]);
                                                    assert(qv(out@[k]) == restm.0[
                                                        k - mid.len()
                                                    ]);
                                                }
                                            }
                                        },
                                        None => {},
                                    }
                                },
                                None => {},
                            }
                        }
                        Some(j2)
                    },
                    None => None,
                }
            },
        }
    }
}

/// Parse one transform function at `i` (no leading separator):
/// `matrix(a b c d e f)`, `translate(tx [ty])` or `scale(sx [sy])`.
/// Yields its transform and the index after `)`.  The rotation and
/// skew functions are recognized but unsupported in this exact
/// model; anything else is malformed.
pub open spec fn tfn_parse_m(s: Seq<u8>, i: int) -> Result<(Tm, int), ConvertError> {
    if kw_at(s, i, seq![109u8, 97u8, 116u8, 114u8, 105u8, 120u8]) {
        match paren_open_m(s, i + 6) {
            None => Err(ConvertError::MalformedTransform),
            Some(j0) => match args_parse_m(s, j0, 6) {
            None => Err(ConvertError::MalformedTransform),
            Some(ae) => {
                let p1 = pm_of(ae.0[0], ae.0[1]);
                let p2 = pm_of(ae.0[2], ae.0[3]);
                let p3 = pm_of(ae.0[4], ae.0[5]);
                if !(pm_fits(p1) && pm_fits(p2) && pm_fits(p3)) {
                    Err(ConvertError::NumericOverflow)
                } else {
                    match tm_from_points_m(p1, p2, p3) {
                        None => Err(ConvertError::NumericOverflow),
                        Some(t) => Ok((t, ae.1)),
                    }
                }
            },
            },
        }
    } else if kw_at(s, i, seq![116u8, 114u8, 97u8, 110u8, 115u8, 108u8, 97u8, 116u8, 101u8]) {
        match paren_open_m(s, i + 9) {
        None => Err(ConvertError::MalformedTransform),
        Some(j0) => {
        let two = args_parse_m(s, j0, 2);
        let args = if two is Some {
            two
        } else {
            match args_parse_m(s, j0, 1) {
                None => None,
                Some(ae) => Some((seq![ae.0[0], (0int, 1int)], ae.1)),
            }
        };
        match args {
            None => Err(ConvertError::MalformedTransform),
            Some(ae) => {
                let p = pm_of(ae.0[0], ae.0[1]);
                if !pm_fits(p) {
                    Err(ConvertError::NumericOverflow)
                } else {
                    Ok((Tm { a: p.den, b: 0, c: 0, d: p.den, e: p.x, f: p.y, den: p.den }, ae.1))
                }
            },
        }
        },
        }
    } else if kw_at(s, i, seq![115u8, 99u8, 97u8, 108u8, 101u8]) {
        match paren_open_m(s, i + 5) {
        None => Err(ConvertError::MalformedTransform),
        Some(j0) => {
        let two = args_parse_m(s, j0, 2);
        let args = if two is Some {
            two
        } else {
            match args_parse_m(s, j0, 1) {
                None => None,
                Some(ae) => Some((seq![ae.0[0], ae.0[0]], ae.1)),
            }
        };
        match args {
            None => Err(ConvertError::MalformedTransform),
            Some(ae) => {
                let p = pm_of(ae.0[0], ae.0[1]);
                if !pm_fits(p) {
                    Err(ConvertError::NumericOverflow)
                } else {
                    Ok((Tm { a: p.x, b: 0, c: 0, d: p.y, e: 0, f: 0, den: p.den }, ae.1))
                }
            },
        }
        },
        }
    } else if kw_at(s, i, seq![114u8, 111u8, 116u8, 97u8, 116u8, 101u8]) || kw_at(
        s,
        i,
        seq![115u8, 107u8, 101u8, 119u8, 88u8],
    ) || kw_at(s, i, seq![115u8, 107u8, 101u8, 119u8, 89u8]) {
        Err(ConvertError::UnsupportedTransform { at: i as usize })
    } else {
        Err(ConvertError::MalformedTransform)
    }
}

/// Parse one transform function, as `tfn_parse_m` says.
#[verifier::rlimit(60)]
fn parse_tfn(s: &[u8], i: usize) -> (r: Result<(Transform2D, usize), ConvertError>)
    requires
        i <= s@.len(),
    ensures
        r matches Ok(te) ==> ({
            &&& tfn_parse_m(s@, i as int) matches Ok(m)
            &&& tv(te.0) == m.0
            &&& t_wf(te.0)
            &&& te.1 as int == m.1
            &&& i < te.1 <= s@.len()
        }),
        r matches Err(e) ==> tfn_parse_m(s@, i as int) == Err::<(Tm, int), ConvertError>(e),
{
    let kw_matrix: Vec<u8> = vec![109u8, 97u8, 116u8, 114u8, 105u8, 120u8];
    let kw_translate: Vec<u8> = vec![116u8, 114u8, 97u8, 110u8, 115u8, 108u8, 97u8, 116u8, 101u8];
    let kw_scale: Vec<u8> = vec![115u8, 99u8, 97u8, 108u8, 101u8];
    let kw_rotate: Vec<u8> = vec![114u8, 111u8, 116u8, 97u8, 116u8, 101u8];
    let kw_skewx: Vec<u8> = vec![115u8, 107u8, 101u8, 119u8, 88u8];
    let kw_skewy: Vec<u8> = vec![115u8, 107u8, 101u8, 119u8, 89u8];
    proof {
        assert(kw_matrix@ =~= seq![109u8, 97u8, 116u8, 114u8, 105u8, 120u8]);
        assert(kw_translate@ =~= seq![116u8, 114u8, 97u8, 110u8, 115u8, 108u8, 97u8, 116u8, 101u8]);
        assert(kw_scale@ =~= seq![115u8, 99u8, 97u8, 108u8, 101u8]);
        assert(kw_rotate@ =~= seq![114u8, 111u8, 116u8, 97u8, 116u8, 101u8]);
        assert(kw_skewx@ =~= seq![115u8, 107u8, 101u8, 119u8, 88u8]);
        assert(kw_skewy@ =~= seq![115u8, 107u8, 101u8, 119u8, 89u8]);
    }
    let slen = s.len();
    if match_kw(s, i, &kw_matrix) {
        let j0 = match paren_open(s, i + 6) {
            Some(j0) => j0,
            None => {
                return Err(ConvertError::MalformedTransform);
            },
        };
        let mut args: Vec<Q> = Vec::new();
        match parse_args(s, j0, 6, &mut args) {
            None => Err(ConvertError::MalformedTransform),
            Some(end) => {
                let p1 = match pt_of(args[0], args[1]) {
                    Some(p) => p,
                    None => {
                        return Err(ConvertError::NumericOverflow);
                    },
                };
                let p2 = match pt_of(args[2], args[3]) {
                    Some(p) => p,
                    None => {
                        return Err(ConvertError::NumericOverflow);
                    },
                };
                let p3 = match pt_of(args[4], args[5]) {
                    Some(p) => p,
                    None => {
                        return Err(ConvertError::NumericOverflow);
                    },
                };
                match tm_from_points(&p1, &p2, &p3) {
                    None => Err(ConvertError::NumericOverflow),
                    Some(t) => Ok((t, end)),
                }
            },
        }
    } else if match_kw(s, i, &kw_translate) {
        let j0 = match paren_open(s, i + 9) {
            Some(j0) => j0,
            None => {
                return Err(ConvertError::MalformedTransform);
            },
        };
        let mut args: Vec<Q> = Vec::new();
        let end = match parse_args(s, j0, 2, &mut args) {
            Some(end) => end,
            None => {
                let mut args1: Vec<Q> = Vec::new();
                match parse_args(s, j0, 1, &mut args1) {
                    None => {
                        return Err(ConvertError::MalformedTransform);
                    },
                    Some(end) => {
                        args = args1;
                        args.push(Q { n: 0, d: 1 });
                        end
                    },
                }
            },
        };
        let p = match pt_of(args[0], args[1]) {
            Some(p) => p,
            None => {
                return Err(ConvertError::NumericOverflow);
            },
        };
        Ok((Transform2D { a: p.den, b: 0, c: 0, d: p.den, e: p.x, f: p.y, den: p.den }, end))
    } else if match_kw(s, i, &kw_scale) {
        let j0 = match paren_open(s, i + 5) {
            Some(j0) => j0,
            None => {
                return Err(ConvertError::MalformedTransform);
            },
        };
        let mut args: Vec<Q> = Vec::new();
        let end = match parse_args(s, j0, 2, &mut args) {
            Some(end) => end,
            None => {
                let mut args1: Vec<Q> = Vec::new();
                match parse_args(s, j0, 1, &mut args1) {
                    None => {
                        return Err(ConvertError::MalformedTransform);
                    },
                    Some(end) => {
                        let sx = args1[0];
                        args = args1;
                        args.push(sx);
                        end
                    },
                }
            },
        };
        let p = match pt_of(args[0], args[1]) {
            Some(p) => p,
            None => {
                return Err(ConvertError::NumericOverflow);
            },
        };
        Ok((Transform2D { a: p.x, b: 0, c: 0, d: p.y, e: 0, f: 0, den: p.den }, end))
    } else if match_kw(s, i, &kw_rotate) || match_kw(s, i, &kw_skewx) || match_kw(s, i, &kw_skewy) {
        Err(ConvertError::UnsupportedTransform { at: i })
    } else {
        Err(ConvertError::MalformedTransform)
    }
}

/// Parse a whole transform list from `i`, composing each function
/// onto `acc` from the left.
pub open spec fn tf_list_m(s: Seq<u8>, i: int, acc: Tm) -> Result<Tm, ConvertError>
    decreases s.len() - i,
{
    if !(0 <= i <= s.len()) {
        Err(ConvertError::MalformedTransform)
    } else {
        let i0 = sep_m(s, i);
        if i0 >= s.len() {
            Ok(acc)
        } else {
            match tfn_parse_m(s, i0) {
                Err(e) => Err(e),
                Ok(te) => {
                    let comp = tm_compose(acc, te.0);
                    if !tm_fits(comp) {
                        Err(ConvertError::NumericOverflow)
                    } else if te.1 > i && te.1 <= s.len() {
                        tf_list_m(s, te.1, comp)
                    } else {
                        Err(ConvertError::MalformedTransform)
                    }
                },
            }
        }
    }
}

fn tf_list(s: &[u8], i: usize, acc: Transform2D) -> (r: Result<Transform2D, ConvertError>)
    requires
        i <= s@.len(),
        t_wf(acc),
    ensures
        r matches Ok(t) ==> tf_list_m(s@, i as int, tv(acc)) == Ok::<Tm, ConvertError>(tv(t))
            && t_wf(t),
        r matches Err(e) ==> tf_list_m(s@, i as int, tv(acc)) == Err::<Tm, ConvertError>(e),
    decreases s@.len() - i,
{
    let i0 = skip_sep(s, i);
    if i0 >= s.len() {
        return Ok(acc);
    }
    match parse_tfn(s, i0) {
        Err(e) => Err(e),
        Ok((child, end)) => {
            match compose(&acc, &child) {
                None => Err(ConvertError::NumericOverflow),
                Some(comp) => {
                    if end > i && end <= s.len() {
                        tf_list(s, end, comp)
                    } else {
                        Err(ConvertError::MalformedTransform)
                    }
                },
            }
        },
    }
}

/// Parse a transform attribute: a list of `matrix`, `translate` and
/// `scale` functions composed left to right onto the identity, as
/// `tf_list_m` says.
pub fn parse_transform(s: &[u8]) -> (r: Result<Transform2D, ConvertError>)
    ensures
        r matches Ok(t) ==> tf_list_m(s@, 0, tm_identity()) == Ok::<Tm, ConvertError>(tv(t))
            && t_wf(t),
        r matches Err(e) ==> tf_list_m(s@, 0, tm_identity()) == Err::<Tm, ConvertError>(e),
{
    tf_list(s, 0, crate::geom::t_identity())
}

} // verus!
