//! The document walker: a depth-first traversal of the parsed
//! vector-graphics tree, composing the transform of each node onto the
//! inherited one, converting path leaves into contours and text leaves
//! into anchors, and passing through every other container.

use vstd::prelude::*;
use vstd::slice::{slice_subrange, slice_to_vec};
use vstd::utf8::{decode_utf8, valid_utf8};
use crate::num::{q_wf, qv, Q};
use crate::geom::{compose, tm_compose, tm_fits, tm_identity, t_wf, tv, Tm, Transform2D};
use crate::contour::{convert_commands, convert_m, map_pair, map_pair_m, Contour, ContourPoint};
use crate::parse::{length_parse_m, parse_length};
use crate::path::{parse_path, path_parse_m};
use crate::tform::{parse_transform, tf_list_m};
use crate::ConvertError;

verus! {

/// A node of the parsed document tree.  Attribute values are kept as
/// their raw UTF-8 bytes; the walker parses them.  A group stands for
/// the container elements the format knows; any other element is a
/// transparent container too.
#[derive(Debug)]
pub enum SvgNode {
    Path { transform: Option<Vec<u8>>, d: Option<Vec<u8>> },
    Text {
        transform: Option<Vec<u8>>,
        x: Option<Vec<u8>>,
        y: Option<Vec<u8>>,
        content: Option<Vec<u8>>,
    },
    Group { transform: Option<Vec<u8>>, children: Vec<SvgNode> },
    Other { transform: Option<Vec<u8>>, children: Vec<SvgNode> },
}

/// A named point of interest in destination coordinates.
#[derive(Clone, PartialEq, Eq, Debug)]
pub struct Anchor {
    pub x: i64,
    pub y: i64,
    pub name: Vec<u8>,
}

/// The mathematical value of an anchor.
pub ghost struct AnchorM {
    pub x: int,
    pub y: int,
    pub name: Seq<u8>,
}

pub open spec fn av(a: Anchor) -> AnchorM {
    AnchorM { x: a.x as int, y: a.y as int, name: a.name@ }
}

/// A character the destination format's naming rules refuse.
pub open spec fn is_control_char(c: char) -> bool {
    (c as u32) <= 0x1F || (c as u32) == 0x7F || (0x80 <= (c as u32) <= 0x9F)
}

/// A valid anchor name: non-empty well-formed UTF-8 without control
/// characters, the destination format's naming rule.
pub open spec fn name_ok(b: Seq<u8>) -> bool {
    &&& valid_utf8(b)
    &&& decode_utf8(b).len() > 0
    &&& forall|i: int| 0 <= i < decode_utf8(b).len() ==> !is_control_char(#[trigger] decode_utf8(b)[i])
}

/// Relies on norad's `Name::new`: a name is accepted exactly when it
/// is non-empty and holds no control character (0x00-0x1F, 0x7F,
/// 0x80-0x9F); the byte view decodes it as UTF-8 first.
#[verifier::external_body]
fn norad_name_ok(b: &[u8]) -> (r: bool)
    ensures
        r == name_ok(b@),
{
    match core::str::from_utf8(b) {
        Ok(s) => norad::Name::new(s).is_ok(),
        Err(_) => false,
    }
}

/// The byte length of the whitespace character starting at `i`, or
/// zero when none starts there.  The set is exactly the characters
/// `char::is_whitespace` accepts, spelled in their UTF-8 encodings:
/// 0x09-0x0D and space; next line and no-break space; the ogham space
/// mark; the en-quad .. hair-space range; line and paragraph
/// separators; the narrow no-break, medium mathematical and
/// ideographic spaces.
pub open spec fn ws_len_at(s: Seq<u8>, i: int) -> int {
    if 0 <= i < s.len() && (s[i] == 32 || (9 <= s[i] <= 13)) {
        1
    } else if 0 <= i && i + 2 <= s.len() && s[i] == 0xC2 && (s[i + 1] == 0x85 || s[i + 1]
        == 0xA0) {
        2
    } else if 0 <= i && i + 3 <= s.len() && s[i] == 0xE1 && s[i + 1] == 0x9A && s[i + 2] == 0x80 {
        3
    } else if 0 <= i && i + 3 <= s.len() && s[i] == 0xE2 && s[i + 1] == 0x80 && (0x80 <= s[i + 2]
        <= 0x8A || s[i + 2] == 0xA8 || s[i + 2] == 0xA9 || s[i + 2] == 0xAF) {
        3
    } else if 0 <= i && i + 3 <= s.len() && s[i] == 0xE2 && s[i + 1] == 0x81 && s[i + 2] == 0x9F {
        3
    } else if 0 <= i && i + 3 <= s.len() && s[i] == 0xE3 && s[i + 1] == 0x80 && s[i + 2] == 0x80 {
        3
    } else {
        0
    }
}

/// First index at or after `i` where no whitespace character starts.
pub open spec fn trim_front_m(s: Seq<u8>, i: int) -> int
    decreases s.len() - i,
{
    let k = ws_len_at(s, i);
    if k > 0 && i + k <= s.len() {
        trim_front_m(s, i + k)
    } else {
        i
    }
}

/// Trim whitespace characters off the back, from `e` down to `lo`:
/// the least end that drops every trailing whitespace character.  In
/// well-formed UTF-8 a whitespace encoding ending at `e` is
/// unambiguous, since none of its lead bytes can be a continuation
/// byte.
pub open spec fn trim_back_m(s: Seq<u8>, e: int, lo: int) -> int
    decreases e,
{
    let k: int = if lo + 1 <= e && ws_len_at(s, e - 1) == 1 {
        1
    } else if lo + 2 <= e && ws_len_at(s, e - 2) == 2 {
        2
    } else if lo + 3 <= e && ws_len_at(s, e - 3) == 3 {
        3
    } else {
        0
    };
    if k > 0 && 0 <= lo <= e - k {
        trim_back_m(s, e - k, lo)
    } else {
        e
    }
}

/// Match one whitespace character at `i`, as `ws_len_at` says.
fn ws_len(s: &[u8], i: usize) -> (r: usize)
    requires
        i <= s@.len(),
    ensures
        r as int == ws_len_at(s@, i as int),
        i + r <= s@.len(),
{
    let n = s.len();
    let rem = n - i;
    if rem >= 1 && (s[i] == 32 || (9 <= s[i] && s[i] <= 13)) {
        1
    } else if rem >= 2 && s[i] == 0xC2 && (s[i + 1] == 0x85 || s[i + 1] == 0xA0) {
        2
    } else if rem >= 3 && s[i] == 0xE1 && s[i + 1] == 0x9A && s[i + 2] == 0x80 {
        3
    } else if rem >= 3 && s[i] == 0xE2 && s[i + 1] == 0x80 && (0x80 <= s[i + 2] && s[i + 2]
        <= 0x8A || s[i + 2] == 0xA8 || s[i + 2] == 0xA9 || s[i + 2] == 0xAF) {
        3
    } else if rem >= 3 && s[i] == 0xE2 && s[i + 1] == 0x81 && s[i + 2] == 0x9F {
        3
    } else if rem >= 3 && s[i] == 0xE3 && s[i + 1] == 0x80 && s[i + 2] == 0x80 {
        3
    } else {
        0
    }
}

/// Trim leading whitespace, as `trim_front_m` says.
fn trim_front(s: &[u8], i: usize) -> (r: usize)
    requires
        i <= s@.len(),
    ensures
        r as int == trim_front_m(s@, i as int),
        i <= r <= s@.len(),
    decreases s@.len() - i,
{
    let n = s.len();
    let k = ws_len(s, i);
    if k > 0 {
        trim_front(s, i + k)
    } else {
        i
    }
}

/// Trim trailing whitespace, as `trim_back_m` says.
fn trim_back(s: &[u8], e: usize, lo: usize) -> (r: usize)
    requires
        lo <= e <= s@.len(),
    ensures
        r as int == trim_back_m(s@, e as int, lo as int),
        lo <= r <= e,
    decreases e,
{
    let k: usize = if e - lo >= 1 && ws_len(s, e - 1) == 1 {
        1
    } else if e - lo >= 2 && ws_len(s, e - 2) == 2 {
        2
    } else if e - lo >= 3 && ws_len(s, e - 3) == 3 {
        3
    } else {
        0
    };
    if k > 0 {
        trim_back(s, e - k, lo)
    } else {
        e
    }
}

/// The position an attribute gives: its parsed length, or zero when
/// it is absent or does not parse.
pub open spec fn attr_coord_m(a: Option<Vec<u8>>) -> (int, int) {
    match a {
        None => (0, 1),
        Some(b) => match length_parse_m(b@) {
            Ok(v) => v,
            Err(_) => (0, 1),
        },
    }
}

fn attr_coord(a: &Option<Vec<u8>>) -> (r: Q)
    ensures
        qv(r) == attr_coord_m(*a),
        q_wf(r),
{
    match a {
        None => Q { n: 0, d: 1 },
        Some(b) => match parse_length(b.as_slice()) {
            Ok(q) => q,
            Err(_) => Q { n: 0, d: 1 },
        },
    }
}

/// Extract an anchor from a text node: the text content, trimmed of
/// whitespace characters on both ends, is the name (an empty or
/// invalid name yields nothing); the position is the node's x/y
/// attributes mapped through the effective transform.
pub open spec fn extract_anchor_m(
    x_attr: Option<Vec<u8>>,
    y_attr: Option<Vec<u8>>,
    content: Option<Vec<u8>>,
    t: Tm,
    h: (int, int),
    dsc: (int, int),
    sc: (int, int),
) -> Result<Option<AnchorM>, ConvertError> {
    match content {
        None => Ok(None),
        Some(c) => {
            let a = trim_front_m(c@, 0);
            let e = trim_back_m(c@, c@.len() as int, a);
            let nm = c@.subrange(a, e);
            if nm.len() == 0 {
                Ok(None)
            } else if !name_ok(nm) {
                Ok(None)
            } else {
                match map_pair_m(attr_coord_m(x_attr), attr_coord_m(y_attr), t, h, dsc, sc) {
                    None => Err(ConvertError::NumericOverflow),
                    Some(d) => Ok(Some(AnchorM { x: d.0, y: d.1, name: nm })),
                }
            }
        },
    }
}

/// Extract an anchor, as `extract_anchor_m` says.
pub fn extract_anchor(
    x_attr: &Option<Vec<u8>>,
    y_attr: &Option<Vec<u8>>,
    content: &Option<Vec<u8>>,
    t: &Transform2D,
    h: Q,
    dsc: Q,
    sc: Q,
) -> (r: Result<Option<Anchor>, ConvertError>)
    requires
        t_wf(*t),
        q_wf(h),
        q_wf(dsc),
        q_wf(sc),
    ensures
        r matches Ok(o) ==> ({
            &&& extract_anchor_m(*x_attr, *y_attr, *content, tv(*t), qv(h), qv(dsc), qv(sc))
                matches Ok(m)
            &&& (o is Some <==> m is Some)
            &&& o matches Some(anch) ==> m == Some(av(anch))
        }),
        r matches Err(e) ==> extract_anchor_m(
            *x_attr,
            *y_attr,
            *content,
            tv(*t),
            qv(h),
            qv(dsc),
            qv(sc),
        ) == Err::<Option<AnchorM>, ConvertError>(e),
{
    let c = match content {
        None => {
            return Ok(None);
        },
        Some(c) => c,
    };
    let a = trim_front(c.as_slice(), 0);
    let e = trim_back(c.as_slice(), c.len(), a);
    let nm_slice = slice_subrange(c.as_slice(), a, e);
    if nm_slice.len() == 0 {
        return Ok(None);
    }
    if !norad_name_ok(nm_slice) {
        return Ok(None);
    }
    let xq = attr_coord(x_attr);
    let yq = attr_coord(y_attr);
    match map_pair(xq, yq, t, h, dsc, sc) {
        None => Err(ConvertError::NumericOverflow),
        Some(d) => Ok(Some(Anchor { x: d.0, y: d.1, name: slice_to_vec(nm_slice) })),
    }
}

/// The effective transform of a node: the inherited transform when it
/// has no transform attribute, else the inherited transform composed
/// with the parsed local one.
pub open spec fn node_transform_m(t_attr: Option<Vec<u8>>, inherited: Tm) -> Result<
    Tm,
    ConvertError,
> {
    match t_attr {
        None => Ok(inherited),
        Some(b) => match tf_list_m(b@, 0, tm_identity()) {
            Err(e) => Err(e),
            Ok(local) => {
                let c = tm_compose(inherited, local);
                if tm_fits(c) {
                    Ok(c)
                } else {
                    Err(ConvertError::NumericOverflow)
                }
            },
        },
    }
}

fn node_transform(t_attr: &Option<Vec<u8>>, inherited: &Transform2D) -> (r: Result<
    Transform2D,
    ConvertError,
>)
    requires
        t_wf(*inherited),
    ensures
        r matches Ok(t) ==> node_transform_m(*t_attr, tv(*inherited)) == Ok::<Tm, ConvertError>(
            tv(t),
        ) && t_wf(t),
        r matches Err(e) ==> node_transform_m(*t_attr, tv(*inherited)) == Err::<Tm, ConvertError>(
            e,
        ),
{
    match t_attr {
        None => Ok(*inherited),
        Some(b) => match parse_transform(b.as_slice()) {
            Err(e) => Err(e),
            Ok(local) => match compose(inherited, &local) {
                None => Err(ConvertError::NumericOverflow),
                Some(c) => Ok(c),
            },
        },
    }
}

/// Walk one node: compose its transform, convert a path leaf's
/// commands into contours, extract a text leaf's anchor, and recurse
/// into a container's children in document order.
pub open spec fn walk_m(node: SvgNode, t: Tm, h: (int, int), dsc: (int, int), sc: (int, int)) -> Result<
    (Seq<Seq<ContourPoint>>, Seq<AnchorM>),
    ConvertError,
>
    decreases node, 0int,
{
    match node {
        SvgNode::Path { transform, d } => match node_transform_m(transform, t) {
            Err(e) => Err(e),
            Ok(ct) => match d {
                None => Ok((Seq::empty(), Seq::empty())),
                Some(db) => match path_parse_m(db@) {
                    Err(e) => Err(e),
                    Ok(cmds) => match convert_m(cmds, ct, h, dsc, sc) {
                        None => Err(ConvertError::NumericOverflow),
                        Some(cs) => Ok((cs, Seq::empty())),
                    },
                },
            },
        },
        SvgNode::Text { transform, x, y, content } => match node_transform_m(transform, t) {
            Err(e) => Err(e),
            Ok(ct) => match extract_anchor_m(x, y, content, ct, h, dsc, sc) {
                Err(e) => Err(e),
                Ok(None) => Ok((Seq::empty(), Seq::empty())),
                Ok(Some(a)) => Ok((Seq::empty(), seq![a])),
            },
        },
        SvgNode::Group { transform, children } => match node_transform_m(transform, t) {
            Err(e) => Err(e),
            Ok(ct) => walk_seq_m(children@, 0, ct, h, dsc, sc),
        },
        SvgNode::Other { transform, children } => match node_transform_m(transform, t) {
            Err(e) => Err(e),
            Ok(ct) => walk_seq_m(children@, 0, ct, h, dsc, sc),
        },
    }
}

/// Walk the children from index `i` on, concatenating their contours
/// and anchors in document order.
pub open spec fn walk_seq_m(
    nodes: Seq<SvgNode>,
    i: int,
    t: Tm,
    h: (int, int),
    dsc: (int, int),
    sc: (int, int),
) -> Result<(Seq<Seq<ContourPoint>>, Seq<AnchorM>), ConvertError>
    decreases nodes, nodes.len() - i + 1,
{
    if !(0 <= i < nodes.len()) {
        Ok((Seq::empty(), Seq::empty()))
    } else {
        match walk_m(nodes[i], t, h, dsc, sc) {
            Err(e) => Err(e),
            Ok(first) => match walk_seq_m(nodes, i + 1, t, h, dsc, sc) {
                Err(e) => Err(e),
                Ok(rest) => Ok((first.0 + rest.0, first.1 + rest.1)),
            },
        }
    }
}

/// Convert one path leaf's data and append the contours it yields.
#[verifier::rlimit(100)]
fn append_path_contours(db: &Vec<u8>, ct: &Transform2D, h: Q, dsc: Q, sc: Q, contours: &mut Vec<
    Contour,
>) -> (r: Result<(), ConvertError>)
    requires
        t_wf(*ct),
        q_wf(h),
        q_wf(dsc),
        q_wf(sc),
    ensures
        r is Ok ==> ({
            &&& path_parse_m(db@) matches Ok(cmds)
            &&& convert_m(cmds, tv(*ct), qv(h), qv(dsc), qv(sc)) matches Some(cs)
            &&& final(contours)@.len() == old(contours)@.len() + cs.len()
            &&& final(contours)@.subrange(0, old(contours)@.len() as int) == old(contours)@
            &&& forall|k: int|
                old(contours)@.len() <= k < final(contours)@.len() ==> (#[trigger] final(contours)@[k]).points@
                    == cs[k - old(contours)@.len()]
        }),
        r matches Err(e) ==> match path_parse_m(db@) {
            Err(e2) => e == e2,
            Ok(cmds) => convert_m(cmds, tv(*ct), qv(h), qv(dsc), qv(sc)) is None
                && e == ConvertError::NumericOverflow,
        },
{
    let cmds = match parse_path(db.as_slice()) {
        Ok(cmds) => cmds,
        Err(e) => {
            return Err(e);
        },
    };
    let mut cs = match convert_commands(&cmds, ct, h, dsc, sc) {
        None => {
            return Err(ConvertError::NumericOverflow);
        },
        Some(cs) => cs,
    };
    let ghost c0 = contours@;
    let ghost csm = cs@;
    let total = cs.len();
    let mut taken: usize = 0;
    while cs.len() > 0
        invariant
            contours@.len() == c0.len() + taken,
            taken + cs@.len() == csm.len(),
            csm.len() == total,
            contours@.subrange(0, c0.len() as int) == c0,
            forall|k: int| 0 <= k < cs@.len() ==> #[trigger] cs@[k] == csm[taken + k],
            forall|k: int|
                c0.len() <= k < contours@.len() ==> #[trigger] contours@[k] == csm[k - c0.len()],
        decreases cs@.len(),
    {
        let c = cs.remove(0);
        contours.push(c);
        taken = taken + 1;
        proof {
            assert(contours@.subrange(0, c0.len() as int) =~= c0);
        }
    }
    Ok(())
}

/// Walk one node, appending what it contributes, as `walk_m` says.
#[verifier::rlimit(100)]
pub fn walk(
    node: &SvgNode,
    t: &Transform2D,
    h: Q,
    dsc: Q,
    sc: Q,
    contours: &mut Vec<Contour>,
    anchors: &mut Vec<Anchor>,
) -> (r: Result<(), ConvertError>)
    requires
        t_wf(*t),
        q_wf(h),
        q_wf(dsc),
        q_wf(sc),
    ensures
        r is Ok <==> walk_m(*node, tv(*t), qv(h), qv(dsc), qv(sc)) is Ok,
        r is Ok ==> ({
            &&& walk_m(*node, tv(*t), qv(h), qv(dsc), qv(sc)) matches Ok(m)
            &&& final(contours)@.len() == old(contours)@.len() + m.0.len()
            &&& final(contours)@.subrange(0, old(contours)@.len() as int) == old(contours)@
            &&& forall|k: int|
                old(contours)@.len() <= k < final(contours)@.len() ==> (#[trigger] final(contours)@[k]).points@ == m.0[k - old(contours)@.len()]
            &&& final(anchors)@.len() == old(anchors)@.len() + m.1.len()
            &&& final(anchors)@.subrange(0, old(anchors)@.len() as int) == old(anchors)@
            &&& forall|k: int|
                old(anchors)@.len() <= k < final(anchors)@.len() ==> av(#[trigger] final(anchors)@[k]) == m.1[k - old(anchors)@.len()]
        }),
        r matches Err(e) ==> walk_m(*node, tv(*t), qv(h), qv(dsc), qv(sc)) == Err::<
            (Seq<Seq<ContourPoint>>, Seq<AnchorM>),
            ConvertError,
        >(e),
    decreases *node, 0int,
{
    match node {
        SvgNode::Path { transform, d } => {
            let ct = match node_transform(transform, t) {
                Ok(ct) => ct,
                Err(e) => {
                    return Err(e);
                },
            };
            let db = match d {
                None => {
                    proof {
                        assert(contours@.subrange(0, contours@.len() as int) =~= contours@);
                        assert(anchors@.subrange(0, anchors@.len() as int) =~= anchors@);
                    }
                    return Ok(());
                },
                Some(db) => db,
            };
            match append_path_contours(db, &ct, h, dsc, sc, contours) {
                Ok(()) => {
                    proof {
                        assert(anchors@.subrange(0, anchors@.len() as int) =~= anchors@);
                    }
                    Ok(())
                },
                Err(e) => Err(e),
            }
        },
        SvgNode::Text { transform, x, y, content } => {
            let ct = match node_transform(transform, t) {
                Ok(ct) => ct,
                Err(e) => {
                    return Err(e);
                },
            };
            let anch = match extract_anchor(x, y, content, &ct, h, dsc, sc) {
                Ok(a) => a,
                Err(e) => {
                    return Err(e);
                },
            };
            proof {
                assert(contours@.subrange(0, contours@.len() as int) =~= contours@);
            }
            match anch {
                None => {
                    proof {
                        assert(anchors@.subrange(0, anchors@.len() as int) =~= anchors@);
                    }
                    Ok(())
                },
                Some(a) => {
                    let ghost a0 = anchors@;
                    anchors.push(a);
                    proof {
                        assert(anchors@.subrange(0, a0.len() as int) =~= a0);
                    }
                    Ok(())
                },
            }
        },
        SvgNode::Group { transform, children } => {
            let ct = match node_transform(transform, t) {
                Ok(ct) => ct,
                Err(e) => {
                    return Err(e);
                },
            };
            walk_children(children, 0, &ct, h, dsc, sc, contours, anchors)
        },
        SvgNode::Other { transform, children } => {
            let ct = match node_transform(transform, t) {
                Ok(ct) => ct,
                Err(e) => {
                    return Err(e);
                },
            };
            walk_children(children, 0, &ct, h, dsc, sc, contours, anchors)
        },
    }
}

/// Appending a second batch after a first keeps the prefix and lines
/// the whole extension up with the concatenation of the two batches.
proof fn lemma_contour_batches(
    c0: Seq<Contour>,
    c1: Seq<Contour>,
    c2: Seq<Contour>,
    m1: Seq<Seq<ContourPoint>>,
    m2: Seq<Seq<ContourPoint>>,
)
    requires
        c1.len() == c0.len() + m1.len(),
        c1.subrange(0, c0.len() as int) == c0,
        forall|k: int|
            c0.len() <= k < c1.len() ==> (#[trigger] c1[k]).points@ == m1[k - c0.len()],
        c2.len() == c1.len() + m2.len(),
        c2.subrange(0, c1.len() as int) == c1,
        forall|k: int|
            c1.len() <= k < c2.len() ==> (#[trigger] c2[k]).points@ == m2[k - c1.len()],
    ensures
        c2.len() == c0.len() + (m1 + m2).len(),
        c2.subrange(0, c0.len() as int) == c0,
        forall|k: int|
            c0.len() <= k < c2.len() ==> (#[trigger] c2[k]).points@ == (m1 + m2)[k - c0.len()],
{
    assert(c2.subrange(0, c0.len() as int) =~= c2.subrange(0, c1.len() as int).subrange(
        0,
        c0.len() as int,
    ));
    assert forall|k: int|
        c0.len() <= k < c2.len() implies (#[trigger] c2[k]).points@ == (m1 + m2)[k - c0.len()] by {
        if k < c1.len() {
            assert(c2[k] == c2.subrange(0, c1.len() as int)[k]);
        }
    }
}

/// The same shape for anchors.
proof fn lemma_anchor_batches(
    c0: Seq<Anchor>,
    c1: Seq<Anchor>,
    c2: Seq<Anchor>,
    m1: Seq<AnchorM>,
    m2: Seq<AnchorM>,
)
    requires
        c1.len() == c0.len() + m1.len(),
        c1.subrange(0, c0.len() as int) == c0,
        forall|k: int| c0.len() <= k < c1.len() ==> av(#[trigger] c1[k]) == m1[k - c0.len()],
        c2.len() == c1.len() + m2.len(),
        c2.subrange(0, c1.len() as int) == c1,
        forall|k: int| c1.len() <= k < c2.len() ==> av(#[trigger] c2[k]) == m2[k - c1.len()],
    ensures
        c2.len() == c0.len() + (m1 + m2).len(),
        c2.subrange(0, c0.len() as int) == c0,
        forall|k: int|
            c0.len() <= k < c2.len() ==> av(#[trigger] c2[k]) == (m1 + m2)[k - c0.len()],
{
    assert(c2.subrange(0, c0.len() as int) =~= c2.subrange(0, c1.len() as int).subrange(
        0,
        c0.len() as int,
    ));
    assert forall|k: int|
        c0.len() <= k < c2.len() implies av(#[trigger] c2[k]) == (m1 + m2)[k - c0.len()] by {
        if k < c1.len() {
            assert(c2[k] == c2.subrange(0, c1.len() as int)[k]);
        }
    }
}

/// Walk the children from `i` on, as `walk_seq_m` says.
#[verifier::rlimit(100)]
fn walk_children(
    children: &Vec<SvgNode>,
    i: usize,
    t: &Transform2D,
    h: Q,
    dsc: Q,
    sc: Q,
    contours: &mut Vec<Contour>,
    anchors: &mut Vec<Anchor>,
) -> (r: Result<(), ConvertError>)
    requires
        t_wf(*t),
        q_wf(h),
        q_wf(dsc),
        q_wf(sc),
    ensures
        r is Ok <==> walk_seq_m(children@, i as int, tv(*t), qv(h), qv(dsc), qv(sc)) is Ok,
        r is Ok ==> ({
            &&& walk_seq_m(children@, i as int, tv(*t), qv(h), qv(dsc), qv(sc)) matches Ok(m)
            &&& final(contours)@.len() == old(contours)@.len() + m.0.len()
            &&& final(contours)@.subrange(0, old(contours)@.len() as int) == old(contours)@
            &&& forall|k: int|
                old(contours)@.len() <= k < final(contours)@.len() ==> (#[trigger] final(contours)@[k]).points@ == m.0[k - old(contours)@.len()]
            &&& final(anchors)@.len() == old(anchors)@.len() + m.1.len()
            &&& final(anchors)@.subrange(0, old(anchors)@.len() as int) == old(anchors)@
            &&& forall|k: int|
                old(anchors)@.len() <= k < final(anchors)@.len() ==> av(#[trigger] final(anchors)@[k]) == m.1[k - old(anchors)@.len()]
        }),
        r matches Err(e) ==> walk_seq_m(children@, i as int, tv(*t), qv(h), qv(dsc), qv(sc))
            == Err::<(Seq<Seq<ContourPoint>>, Seq<AnchorM>), ConvertError>(e),
    decreases *children, children@.len() - i + 1,
{
    if i >= children.len() {
        proof {
            assert(contours@.subrange(0, contours@.len() as int) =~= contours@);
            assert(anchors@.subrange(0, anchors@.len() as int) =~= anchors@);
        }
        return Ok(());
    }
    let ghost c0 = contours@;
    let ghost a0 = anchors@;
    proof {
        assert(decreases_to!(*children, children@.len() - i + 1 => children@[i as int], 0int));
    }
    match walk(&children[i], t, h, dsc, sc, contours, anchors) {
        Err(e) => Err(e),
        Ok(()) => {
            let ghost c1 = contours@;
            let ghost a1 = anchors@;
            match walk_children(children, i + 1, t, h, dsc, sc, contours, anchors) {
                Err(e) => Err(e),
                Ok(()) => {
                    proof {
                        let tm = tv(*t);
                        let hm = qv(h);
                        let dm = qv(dsc);
                        let sm = qv(sc);
                        match walk_m(children@[i as int], tm, hm, dm, sm) {
                            Ok(first) => {
                                match walk_seq_m(children@, i as int + 1, tm, hm, dm, sm) {
                                    Ok(rest) => {
                                        lemma_contour_batches(
                                            c0,
                                            c1,
                                            contours@,
                                            first.0,
                                            rest.0,
                                        );
                                        lemma_anchor_batches(a0, a1, anchors@, first.1, rest.1);
                                        assert(walk_seq_m(children@, i as int, tm, hm, dm, sm)
                                            == Ok::<(Seq<Seq<ContourPoint>>, Seq<AnchorM>), ConvertError>(
                                            (first.0 + rest.0, first.1 + rest.1),
                                        ));
                                    },
                                    Err(_) => {},
                                }
                            },
                            Err(_) => {},
                        }
                    }
                    Ok(())
                },
            }
        },
    }
}

} // verus!
