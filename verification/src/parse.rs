//! Byte-level parsing of numbers and lengths.
//!
//! Attribute values reach the library as UTF-8 bytes.  A number follows
//! the vector-graphics grammar: optional sign, integer digits, an
//! optional fraction, and an optional exponent that only counts when a
//! digit follows it.  The value is returned as an exact rational; a
//! value whose exact numerator or denominator would leave the
//! magnitude cap does not parse.

use vstd::prelude::*;
use crate::num::{q_wf, qv, Q, LIM};
use crate::ConvertError;

verus! {

pub open spec fn is_ws(b: u8) -> bool {
    b == 32 || b == 9 || b == 13 || b == 10
}

pub open spec fn is_digit(b: u8) -> bool {
    48 <= b <= 57
}

/// First index at or after `i` that does not hold whitespace.
pub open spec fn skip_ws_m(s: Seq<u8>, i: int) -> int
    decreases s.len() - i,
{
    if 0 <= i < s.len() && is_ws(s[i]) {
        skip_ws_m(s, i + 1)
    } else {
        i
    }
}

/// Skip a separator: whitespace, at most one comma, more whitespace.
pub open spec fn sep_m(s: Seq<u8>, i: int) -> int {
    let a = skip_ws_m(s, i);
    if 0 <= a < s.len() && s[a] == 44 {
        skip_ws_m(s, a + 1)
    } else {
        a
    }
}

/// Scan a digit run from `i`, folding the digits onto `acc`: yields
/// the end of the run and the accumulated value.
pub open spec fn scan_num_m(s: Seq<u8>, i: int, acc: int) -> (int, int)
    decreases s.len() - i,
{
    if 0 <= i < s.len() && is_digit(s[i]) {
        scan_num_m(s, i + 1, acc * 10 + (s[i] - 48))
    } else {
        (i, acc)
    }
}

/// Ten to the `k`.
pub open spec fn pow10(k: nat) -> int
    decreases k,
{
    if k == 0 {
        1
    } else {
        10 * pow10((k - 1) as nat)
    }
}

pub proof fn lemma_pow10_pos(k: nat)
    ensures
        pow10(k) >= 1,
    decreases k,
{
    if k > 0 {
        lemma_pow10_pos((k - 1) as nat);
    }
}

pub proof fn lemma_pow10_mono(j: nat, k: nat)
    requires
        j <= k,
    ensures
        pow10(j) <= pow10(k),
    decreases k - j,
{
    if j < k {
        lemma_pow10_pos((k - 1) as nat);
        lemma_pow10_mono(j, (k - 1) as nat);
    }
}

/// Skip whitespace.
pub fn skip_ws(s: &[u8], i: usize) -> (r: usize)
    requires
        i <= s@.len(),
    ensures
        r as int == skip_ws_m(s@, i as int),
        i <= r <= s@.len(),
    decreases s@.len() - i,
{
    if i < s.len() {
        let b = s[i];
        if b == 32 || b == 9 || b == 13 || b == 10 {
            return skip_ws(s, i + 1);
        }
    }
    i
}

/// Skip a separator (whitespace, at most one comma, whitespace).
pub fn skip_sep(s: &[u8], i: usize) -> (r: usize)
    requires
        i <= s@.len(),
    ensures
        r as int == sep_m(s@, i as int),
        i <= r <= s@.len(),
{
    let a = skip_ws(s, i);
    if a < s.len() && s[a] == 44 {
        skip_ws(s, a + 1)
    } else {
        a
    }
}

/// Scan a digit run, tracking the exact accumulated value while it
/// stays under the cap; the ghost argument carries the exact value.
fn scan_num(s: &[u8], i: usize, acc: Option<i64>, Ghost(am): Ghost<int>) -> (r: (
    usize,
    Option<i64>,
))
    requires
        i <= s@.len(),
        0 <= am,
        acc matches Some(a) ==> a as int == am && am <= LIM as int,
        acc is None ==> am > LIM as int,
    ensures
        r.0 as int == scan_num_m(s@, i as int, am).0,
        i <= r.0 <= s@.len(),
        r.1 matches Some(v) ==> v as int == scan_num_m(s@, i as int, am).1 && 0 <= v <= LIM,
        r.1 is None ==> scan_num_m(s@, i as int, am).1 > LIM as int,
    decreases s@.len() - i,
{
    if i < s.len() && 48 <= s[i] && s[i] <= 57 {
        let d: i64 = (s[i] - 48) as i64;
        let next: Option<i64> = match acc {
            Some(a) => {
                let n: i128 = (a as i128) * 10 + (d as i128);
                if n > LIM as i128 {
                    None
                } else {
                    Some(n as i64)
                }
            },
            None => None,
        };
        scan_num(s, i + 1, next, Ghost(am * 10 + (s@[i as int] - 48)))
    } else {
        (i, acc)
    }
}

/// Ten to the `k` while it stays under the cap.
fn pow10_cap(k: u128) -> (r: Option<i64>)
    ensures
        r matches Some(v) ==> v as int == pow10(k as nat) && 1 <= v <= LIM,
        r is None ==> pow10(k as nat) > LIM as int,
{
    let mut j: u128 = 0;
    let mut acc: i64 = 1;
    while j < k
        invariant
            0 <= j <= k,
            acc as int == pow10(j as nat),
            1 <= acc <= LIM,
        decreases k - j,
    {
        let n: i128 = (acc as i128) * 10;
        if n > LIM as i128 {
            proof {
                lemma_pow10_mono((j + 1) as nat, k as nat);
            }
            return None;
        }
        acc = n as i64;
        j = j + 1;
    }
    Some(acc)
}

/// Parse one number starting exactly at `i`: optional sign, digits
/// with an optional fraction, and an exponent only when a digit
/// follows it.  Yields the exact rational value and the first index
/// after the number; `None` when no number starts at `i` or its exact
/// value leaves the magnitude cap.
pub open spec fn num_parse_m(s: Seq<u8>, i: int) -> Option<((int, int), int)> {
    if !(0 <= i < s.len()) {
        None
    } else {
        let sign: int = if s[i] == 43 || s[i] == 45 {
            if s[i] == 45 {
                -1
            } else {
                1
            }
        } else {
            1
        };
        let i1 = if s[i] == 43 || s[i] == 45 {
            i + 1
        } else {
            i
        };
        let r1 = scan_num_m(s, i1, 0);
        let j1 = r1.0;
        let ival = r1.1;
        let has_dot = j1 < s.len() && s[j1] == 46;
        let fs = if has_dot {
            j1 + 1
        } else {
            j1
        };
        let r2 = scan_num_m(s, fs, 0);
        let j2 = if has_dot {
            r2.0
        } else {
            j1
        };
        let fval = if has_dot {
            r2.1
        } else {
            0
        };
        if j1 == i1 && (!has_dot || j2 == fs) {
            None
        } else {
            let nfrac = if has_dot {
                j2 - fs
            } else {
                0
            };
            let denb = pow10(nfrac as nat);
            if denb > LIM as int {
                None
            } else {
                let mant = ival * denb + fval;
                if mant > LIM as int {
                    None
                } else {
                    let e_here = j2 < s.len() && (s[j2] == 101 || s[j2] == 69);
                    let i3 = if e_here && j2 + 1 < s.len() && (s[j2 + 1] == 43 || s[j2 + 1]
                        == 45) {
                        j2 + 2
                    } else {
                        j2 + 1
                    };
                    let e_ok = e_here && i3 < s.len() && is_digit(s[i3]);
                    if !e_ok {
                        Some(((sign * mant, denb), j2))
                    } else {
                        let eneg = s[j2 + 1] == 45;
                        let r3 = scan_num_m(s, i3, 0);
                        let j3 = r3.0;
                        let ev = r3.1;
                        if ev > LIM as int {
                            None
                        } else if !eneg {
                            let p = pow10(ev as nat);
                            if p > LIM as int {
                                None
                            } else {
                                let num0 = mant * p;
                                if num0 > LIM as int {
                                    None
                                } else {
                                    Some(((sign * num0, denb), j3))
                                }
                            }
                        } else {
                            let dd = pow10((nfrac + ev) as nat);
                            if dd > LIM as int {
                                None
                            } else {
                                Some(((sign * mant, dd), j3))
                            }
                        }
                    }
                }
            }
        }
    }
}

/// Parse one number at `i`, as `num_parse_m` says.
#[verifier::rlimit(100)]
pub fn parse_number(s: &[u8], i: usize) -> (r: Option<(Q, usize)>)
    requires
        i <= s@.len(),
    ensures
        r is Some <==> num_parse_m(s@, i as int) is Some,
        r matches Some(qj) ==> ({
            &&& num_parse_m(s@, i as int) matches Some(m)
            &&& qv(qj.0) == m.0
            &&& q_wf(qj.0)
            &&& qj.1 as int == m.1
            &&& i < qj.1 <= s@.len()
        }),
{
    if i >= s.len() {
        return None;
    }
    let b0 = s[i];
    let neg = b0 == 45;
    let i1 = if b0 == 43 || b0 == 45 {
        i + 1
    } else {
        i
    };
    let (j1, ival) = scan_num(s, i1, Some(0), Ghost(0));
    let has_dot = j1 < s.len() && s[j1] == 46;
    let fs = if has_dot {
        j1 + 1
    } else {
        j1
    };
    let (j2r, fvalr) = scan_num(s, fs, Some(0), Ghost(0));
    let j2 = if has_dot {
        j2r
    } else {
        j1
    };
    let fval = if has_dot {
        fvalr
    } else {
        Some(0)
    };
    if j1 == i1 && (!has_dot || j2 == fs) {
        return None;
    }
    let nfrac: usize = if has_dot {
        j2 - fs
    } else {
        0
    };
    let denb = match pow10_cap(nfrac as u128) {
        Some(p) => p,
        None => {
            return None;
        },
    };
    proof {
        lemma_pow10_pos(nfrac as nat);
        let im = scan_num_m(s@, i1 as int, 0).1;
        let fm = if has_dot {
            scan_num_m(s@, fs as int, 0).1
        } else {
            0
        };
        if ival is None {
            assert(im * (denb as int) >= im) by (nonlinear_arith)
                requires
                    im >= 0,
                    denb as int >= 1,
            ;
        }
        if fval is None {
            assert(im * (denb as int) >= 0) by (nonlinear_arith)
                requires
                    im >= 0,
                    denb as int >= 0,
            ;
        }
    }
    let iv = match ival {
        Some(v) => v,
        None => {
            return None;
        },
    };
    let fv = match fval {
        Some(v) => v,
        None => {
            return None;
        },
    };
    proof {
        crate::num::lemma_mul_lim(iv as int, denb as int);
        assert((iv as int) * (denb as int) >= 0) by (nonlinear_arith)
            requires
                iv as int >= 0,
                denb as int >= 0,
        ;
    }
    let mant128: i128 = (iv as i128) * (denb as i128) + (fv as i128);
    if mant128 > LIM as i128 {
        return None;
    }
    let mant: i64 = mant128 as i64;
    let e_here = j2 < s.len() && (s[j2] == 101 || s[j2] == 69);
    let esigned = e_here && j2 + 1 < s.len() && (s[j2 + 1] == 43 || s[j2 + 1] == 45);
    let i3 = if e_here {
        if esigned {
            j2 + 2
        } else {
            j2 + 1
        }
    } else {
        0
    };
    let e_ok = e_here && i3 < s.len() && {
        let b = s[i3];
        48 <= b && b <= 57
    };
    if !e_ok {
        let n = if neg {
            -mant
        } else {
            mant
        };
        proof {
            let sm = num_parse_m(s@, i as int);
            assert(sm matches Some(m) && m.0.1 == denb as int);
            assert(neg == (s@[i as int] == 45));
            assert(n as int == if neg { -(mant as int) } else { mant as int });
            assert((if neg { -1int } else { 1int }) * (mant as int) == n as int) by (nonlinear_arith)
                requires n as int == if neg { -(mant as int) } else { mant as int };
            assert(sm matches Some(m) && m.0.0 == (if neg { -1int } else { 1int }) * (
            mant as int));
        }
        return Some((Q { n: n, d: denb }, j2));
    }
    let eneg = e_here && j2 + 1 < s.len() && s[j2 + 1] == 45;
    let (j3, evr) = scan_num(s, i3, Some(0), Ghost(0));
    let ev = match evr {
        Some(v) => v,
        None => {
            return None;
        },
    };
    if !eneg {
        let p = match pow10_cap(ev as u128) {
            Some(p) => p,
            None => {
                return None;
            },
        };
        proof {
            crate::num::lemma_mul_lim(mant as int, p as int);
            assert((mant as int) * (p as int) >= 0) by (nonlinear_arith)
                requires
                    mant as int >= 0,
                    p as int >= 0,
            ;
        }
        let num128: i128 = (mant as i128) * (p as i128);
        if num128 > LIM as i128 {
            return None;
        }
        let num0 = num128 as i64;
        let n = if neg {
            -num0
        } else {
            num0
        };
        proof {
            let sm = num_parse_m(s@, i as int);
            assert(n as int == if neg { -(num0 as int) } else { num0 as int });
            assert((if neg { -1int } else { 1int }) * (num0 as int) == n as int) by (nonlinear_arith)
                requires n as int == if neg { -(num0 as int) } else { num0 as int };
            assert(sm matches Some(m) && m.0.1 == denb as int && m.1 == j3 as int);
            assert(sm matches Some(m) && m.0.0 == (if neg { -1int } else { 1int }) * (
            num0 as int));
        }
        Some((Q { n: n, d: denb }, j3))
    } else {
        let dd = match pow10_cap(nfrac as u128 + ev as u128) {
            Some(p) => p,
            None => {
                return None;
            },
        };
        let n = if neg {
            -mant
        } else {
            mant
        };
        proof {
            let sm = num_parse_m(s@, i as int);
            assert(n as int == if neg { -(mant as int) } else { mant as int });
            assert((if neg { -1int } else { 1int }) * (mant as int) == n as int) by (nonlinear_arith)
                requires n as int == if neg { -(mant as int) } else { mant as int };
            assert(sm matches Some(m) && m.0.1 == dd as int && m.1 == j3 as int);
            assert(sm matches Some(m) && m.0.0 == (if neg { -1int } else { 1int }) * (
            mant as int));
        }
        Some((Q { n: n, d: dd }, j3))
    }
}

/// Trim trailing whitespace: the least end `>= lo` after dropping
/// whitespace from position `e` leftwards.
pub open spec fn trim_end_m(s: Seq<u8>, e: int, lo: int) -> int
    decreases e,
{
    if lo < e <= s.len() && 0 < e && is_ws(s[e - 1]) {
        trim_end_m(s, e - 1, lo)
    } else {
        e
    }
}

pub(crate) fn trim_end(s: &[u8], e: usize, lo: usize) -> (r: usize)
    requires
        lo <= e <= s@.len(),
    ensures
        r as int == trim_end_m(s@, e as int, lo as int),
        lo <= r <= e,
    decreases e,
{
    if lo < e {
        let b = s[e - 1];
        if b == 32 || b == 9 || b == 13 || b == 10 {
            return trim_end(s, e - 1, lo);
        }
    }
    e
}

/// The recognized length units that the converter rejects: anything
/// but no unit at all or `px`.
pub open spec fn is_known_unit(u: Seq<u8>) -> bool {
    u == seq![101u8, 109u8] || u == seq![101u8, 120u8] || u == seq![105u8, 110u8] || u == seq![
        99u8,
        109u8,
    ] || u == seq![109u8, 109u8] || u == seq![112u8, 116u8] || u == seq![112u8, 99u8] || u == seq![
        37u8,
    ]
}

/// Parse a length: leading whitespace, a number, then a unit, then
/// trailing whitespace.  No unit or `px` is accepted; another known
/// unit is unsupported; anything else does not parse.
pub open spec fn length_parse_m(s: Seq<u8>) -> Result<(int, int), ConvertError> {
    let i0 = skip_ws_m(s, 0);
    match num_parse_m(s, i0) {
        None => Err(ConvertError::MalformedLength),
        Some(vj) => {
            let ue = trim_end_m(s, s.len() as int, vj.1);
            let u = s.subrange(vj.1, ue);
            if u.len() == 0 {
                Ok(vj.0)
            } else if u == seq![112u8, 120u8] {
                Ok(vj.0)
            } else if is_known_unit(u) {
                Err(ConvertError::UnsupportedUnit)
            } else {
                Err(ConvertError::MalformedLength)
            }
        },
    }
}

/// Does `s[j..ue]` spell exactly the two bytes `a b`?
fn unit2(s: &[u8], j: usize, ue: usize, a: u8, b: u8) -> (r: bool)
    requires
        j <= ue <= s@.len(),
    ensures
        r == (s@.subrange(j as int, ue as int) == seq![a, b]),
{
    let ghost u = s@.subrange(j as int, ue as int);
    if ue - j == 2 {
        let r = s[j] == a && s[j + 1] == b;
        proof {
            if r {
                assert(u =~= seq![a, b]);
            } else {
                if u == seq![a, b] {
                    assert(u[0] == a && u[1] == b);
                }
            }
        }
        r
    } else {
        proof {
            assert(u.len() != 2);
        }
        false
    }
}

/// Does `s[j..ue]` spell exactly the byte `a`?
fn unit1(s: &[u8], j: usize, ue: usize, a: u8) -> (r: bool)
    requires
        j <= ue <= s@.len(),
    ensures
        r == (s@.subrange(j as int, ue as int) == seq![a]),
{
    let ghost u = s@.subrange(j as int, ue as int);
    if ue - j == 1 {
        let r = s[j] == a;
        proof {
            if r {
                assert(u =~= seq![a]);
            } else {
                if u == seq![a] {
                    assert(u[0] == a);
                }
            }
        }
        r
    } else {
        proof {
            assert(u.len() != 1);
        }
        false
    }
}

/// Parse a length attribute, as `length_parse_m` says.
pub fn parse_length(s: &[u8]) -> (r: Result<Q, ConvertError>)
    ensures
        r matches Ok(q) ==> length_parse_m(s@) matches Ok(v) && qv(q) == v && q_wf(q),
        r matches Err(e) ==> length_parse_m(s@) == Err::<(int, int), ConvertError>(e),
{
    let i0 = skip_ws(s, 0);
    let (q, j) = match parse_number(s, i0) {
        Some(v) => v,
        None => {
            return Err(ConvertError::MalformedLength);
        },
    };
    let ue = trim_end(s, s.len(), j);
    let ghost u = s@.subrange(j as int, ue as int);
    if ue == j {
        proof {
            assert(u.len() == 0);
        }
        return Ok(q);
    }
    if unit2(s, j, ue, 112, 120) {
        return Ok(q);
    }
    if unit2(s, j, ue, 101, 109) || unit2(s, j, ue, 101, 120) || unit2(s, j, ue, 105, 110)
        || unit2(s, j, ue, 99, 109) || unit2(s, j, ue, 109, 109) || unit2(s, j, ue, 112, 116)
        || unit2(s, j, ue, 112, 99) || unit1(s, j, ue, 37) {
        return Err(ConvertError::UnsupportedUnit);
    }
    proof {
        assert(u.len() > 0);
    }
    Err(ConvertError::MalformedLength)
}

} // verus!
