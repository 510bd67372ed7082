pub mod num;
pub mod geom;
pub mod parse;
pub mod tform;
pub mod path;
pub mod walk;
pub mod contour;

use vstd::prelude::*;
use crate::num::{in_lim, q_div_int, q_int, q_mul, q_round, q_wf, qv, rat_div_int, rat_fits,
    rat_mul, rhafz, Q};
use crate::geom::{t_identity, tm_identity};
use crate::contour::{Contour, ContourPoint};
use crate::parse::length_parse_m;
use crate::walk::{av, walk, walk_m, Anchor, AnchorM, SvgNode};

verus! {

/// The error kinds of a conversion.  Anything else the pipeline meets
/// is recovered locally (an invalid anchor name skips the node).
#[derive(Clone, Copy, PartialEq, Eq, Structural, Debug)]
pub enum ConvertError {
    /// A width or height attribute used a unit other than none or px.
    UnsupportedUnit,
    /// A transform attribute did not match the affine syntax.
    MalformedTransform,
    /// A transform function with valid syntax that this exact-
    /// arithmetic model cannot carry (rotation or skew, which need
    /// trigonometry); `at` is the byte position of its keyword.  The
    /// caller may decompose such a function into an equivalent
    /// `matrix(..)` before handing the attribute over.
    UnsupportedTransform { at: usize },
    /// A path's `d` attribute did not parse; `at` is the byte
    /// position of the offending segment.
    MalformedPathData { at: usize },
    /// A path command with valid syntax that this exact-arithmetic
    /// model cannot carry (an elliptical arc, which needs square
    /// roots); `at` is the byte position of its command letter.  The
    /// caller may flatten arcs to cubic curves before handing the
    /// attribute over.
    UnsupportedPathCommand { at: usize },
    /// A width, height, x or y attribute did not parse as a length.
    MalformedLength,
    /// The document's height did not give a usable positive scale.
    InvalidDimensions,
    /// An exact coordinate left the representable magnitude range.
    NumericOverflow,
}

/// A parsed document: the root element's width and height attribute
/// bytes, and the root node itself.
#[derive(Debug)]
pub struct SvgDocument {
    pub width: Option<Vec<u8>>,
    pub height: Option<Vec<u8>>,
    pub root: SvgNode,
}

/// Configuration for a conversion.
#[derive(Clone, PartialEq, Eq, Debug)]
pub struct ConversionConfig {
    /// Units per em (typically 1000 or 2048).
    pub em_size: i64,
    /// Descent value to place the glyph above the baseline.
    pub descent: i64,
    /// Optional codepoint in hex form.
    pub unicode: Option<Vec<u8>>,
    /// Optional name for the glyph; the caller supplies one derived
    /// from the input file name otherwise.
    pub name: Option<String>,
}

impl ConversionConfig {
    /// Create a new conversion configuration.
    pub fn new(em_size: i64, descent: i64) -> (r: Self)
        ensures
            r == (ConversionConfig {
                em_size,
                descent,
                unicode: None::<Vec<u8>>,
                name: None::<String>,
            }),
    {
        ConversionConfig { em_size, descent, unicode: None, name: None }
    }

    /// Set the codepoint (in hex form, e.g. `0041`).
    pub fn with_unicode(self, unicode: Vec<u8>) -> (r: Self)
        ensures
            r == (ConversionConfig { unicode: Some(unicode), ..self }),
    {
        ConversionConfig { unicode: Some(unicode), ..self }
    }

    /// Set the glyph name.
    pub fn with_name(self, name: String) -> (r: Self)
        ensures
            r == (ConversionConfig { name: Some(name), ..self }),
    {
        ConversionConfig { name: Some(name), ..self }
    }
}

/// The produced glyph record.
#[derive(PartialEq, Eq, Debug)]
pub struct Glyph {
    pub name: String,
    pub width: i64,
    pub height: i64,
    pub codepoint: Option<u32>,
    pub contours: Vec<Contour>,
    pub anchors: Vec<Anchor>,
}

/// The mathematical value of a glyph.
pub ghost struct GlyphM {
    pub name: Seq<char>,
    pub width: int,
    pub height: int,
    pub codepoint: Option<u32>,
    pub contours: Seq<Seq<ContourPoint>>,
    pub anchors: Seq<AnchorM>,
}

pub open spec fn gv(g: Glyph) -> GlyphM {
    GlyphM {
        name: g.name@,
        width: g.width as int,
        height: g.height as int,
        codepoint: g.codepoint,
        contours: g.contours@.map_values(|c: Contour| c.points@),
        anchors: g.anchors@.map_values(|a: Anchor| av(a)),
    }
}

/// The value of one hex digit, or a negative number for anything else.
pub open spec fn hex_digit_val(b: u8) -> int {
    if 48 <= b <= 57 {
        b - 48
    } else if 97 <= b <= 102 {
        b - 87
    } else if 65 <= b <= 70 {
        b - 55
    } else {
        -1
    }
}

/// Fold hex digits from `i` to the end onto `acc`; `None` on a
/// non-digit or when the value leaves 32 bits.
pub open spec fn hex_scan_m(s: Seq<u8>, i: int, acc: int) -> Option<int>
    decreases s.len() - i,
{
    if !(0 <= i <= s.len()) {
        None
    } else if i == s.len() {
        Some(acc)
    } else {
        let d = hex_digit_val(s[i]);
        if d < 0 {
            None
        } else {
            let acc2 = acc * 16 + d;
            if acc2 > 0xFFFFFFFF {
                None
            } else {
                hex_scan_m(s, i + 1, acc2)
            }
        }
    }
}

/// A whole hex string as a 32-bit value: an optional leading plus,
/// then at least one hex digit.
pub open spec fn hex_parse_m(s: Seq<u8>) -> Option<int> {
    if s.len() == 0 {
        None
    } else {
        let i0: int = if s[0] == 43 && s.len() > 1 {
            1
        } else {
            0
        };
        hex_scan_m(s, i0, 0)
    }
}

/// A unicode scalar value: not a surrogate, at most 0x10FFFF.
pub open spec fn is_scalar(v: int) -> bool {
    (0 <= v < 0xD800) || (0xE000 <= v <= 0x10FFFF)
}

/// The codepoint a configuration asks for: its hex string parsed,
/// kept only when it is a scalar value, silently dropped otherwise.
pub open spec fn codepoint_m(u: Option<Vec<u8>>) -> Option<u32> {
    match u {
        None => None,
        Some(h) => match hex_parse_m(h@) {
            None => None,
            Some(v) => if is_scalar(v) {
                Some(v as u32)
            } else {
                None
            },
        },
    }
}

fn hex_scan(s: &[u8], i: usize, acc: u32) -> (r: Option<u32>)
    requires
        i <= s@.len(),
    ensures
        r is Some <==> hex_scan_m(s@, i as int, acc as int) is Some,
        r matches Some(v) ==> hex_scan_m(s@, i as int, acc as int) == Some(v as int),
    decreases s@.len() - i,
{
    if i == s.len() {
        return Some(acc);
    }
    let b = s[i];
    let d: u32 = if 48 <= b && b <= 57 {
        (b - 48) as u32
    } else if 97 <= b && b <= 102 {
        (b - 87) as u32
    } else if 65 <= b && b <= 70 {
        (b - 55) as u32
    } else {
        return None;
    };
    let acc2: u64 = (acc as u64) * 16 + (d as u64);
    if acc2 > 0xFFFFFFFF {
        return None;
    }
    hex_scan(s, i + 1, acc2 as u32)
}

/// The configured codepoint, as `codepoint_m` says.
fn parse_codepoint(u: &Option<Vec<u8>>) -> (r: Option<u32>)
    ensures
        r == codepoint_m(*u),
{
    let h = match u {
        None => {
            return None;
        },
        Some(h) => h,
    };
    if h.len() == 0 {
        return None;
    }
    let s = h.as_slice();
    let i0: usize = if s[0] == 43 && h.len() > 1 {
        1
    } else {
        0
    };
    let v = match hex_scan(s, i0, 0) {
        None => {
            return None;
        },
        Some(v) => v,
    };
    if v < 0xD800 || (0xE000 <= v && v <= 0x10FFFF) {
        Some(v)
    } else {
        None
    }
}

/// The whole conversion as mathematics: width and height parsed (100
/// when absent), the scale `em / height`, the advances rounded from
/// the scaled dimensions, the tree walked from the identity
/// transform, and the codepoint taken from the configuration.
pub open spec fn convert_document_m(doc: SvgDocument, cfg: ConversionConfig) -> Result<
    GlyphM,
    ConvertError,
> {
    let wr = match doc.width {
        None => Ok((100int, 1int)),
        Some(b) => length_parse_m(b@),
    };
    let hr = match doc.height {
        None => Ok((100int, 1int)),
        Some(b) => length_parse_m(b@),
    };
    match wr {
        Err(e) => Err(e),
        Ok(w) => match hr {
            Err(e) => Err(e),
            Ok(h) => {
                if h.0 == 0 {
                    Err(ConvertError::InvalidDimensions)
                } else {
                    let sc = rat_div_int(cfg.em_size as int, h);
                    if !rat_fits(sc) {
                        Err(ConvertError::NumericOverflow)
                    } else {
                        let aw = rat_mul(w, sc);
                        if !rat_fits(aw) {
                            Err(ConvertError::NumericOverflow)
                        } else {
                            let ah = rat_mul(h, sc);
                            if !rat_fits(ah) {
                                Err(ConvertError::NumericOverflow)
                            } else {
                                match walk_m(
                                    doc.root,
                                    tm_identity(),
                                    h,
                                    (cfg.descent as int, 1int),
                                    sc,
                                ) {
                                    Err(e) => Err(e),
                                    Ok(ca) => Ok(
                                        GlyphM {
                                            name: match cfg.name {
                                                Some(n) => n@,
                                                None => "svgglyph"@,
                                            },
                                            width: rhafz(aw.0, aw.1),
                                            height: rhafz(ah.0, ah.1),
                                            codepoint: codepoint_m(cfg.unicode),
                                            contours: ca.0,
                                            anchors: ca.1,
                                        },
                                    ),
                                }
                            }
                        }
                    }
                }
            },
        },
    }
}

/// Convert a parsed document into a glyph record, as
/// `convert_document_m` says.
#[verifier::rlimit(100)]
pub fn convert_document(doc: &SvgDocument, cfg: &ConversionConfig) -> (r: Result<
    Glyph,
    ConvertError,
>)
    requires
        in_lim(cfg.em_size as int),
        in_lim(cfg.descent as int),
    ensures
        r matches Ok(g) ==> convert_document_m(*doc, *cfg) == Ok::<GlyphM, ConvertError>(gv(g)),
        r matches Err(e) ==> convert_document_m(*doc, *cfg) == Err::<GlyphM, ConvertError>(e),
{
    let w: Q = match &doc.width {
        None => Q { n: 100, d: 1 },
        Some(b) => match crate::parse::parse_length(b.as_slice()) {
            Ok(q) => q,
            Err(e) => {
                return Err(e);
            },
        },
    };
    let h: Q = match &doc.height {
        None => Q { n: 100, d: 1 },
        Some(b) => match crate::parse::parse_length(b.as_slice()) {
            Ok(q) => q,
            Err(e) => {
                return Err(e);
            },
        },
    };
    if h.n == 0 {
        return Err(ConvertError::InvalidDimensions);
    }
    let sc = match q_div_int(cfg.em_size, h) {
        Some(sc) => sc,
        None => {
            return Err(ConvertError::NumericOverflow);
        },
    };
    let aw = match q_mul(w, sc) {
        Some(v) => v,
        None => {
            return Err(ConvertError::NumericOverflow);
        },
    };
    let ah = match q_mul(h, sc) {
        Some(v) => v,
        None => {
            return Err(ConvertError::NumericOverflow);
        },
    };
    let width = q_round(aw);
    let height = q_round(ah);
    let ident = t_identity();
    let mut contours: Vec<Contour> = Vec::new();
    let mut anchors: Vec<Anchor> = Vec::new();
    match walk(&doc.root, &ident, h, q_int(cfg.descent), sc, &mut contours, &mut anchors) {
        Ok(()) => {},
        Err(e) => {
            return Err(e);
        },
    }
    let name: String = match &cfg.name {
        Some(n) => String::from_str(n.as_str()),
        None => String::from_str("svgglyph"),
    };
    let codepoint = parse_codepoint(&cfg.unicode);
    let g = Glyph { name, width, height, codepoint, contours, anchors };
    proof {
        match walk_m(doc.root, tm_identity(), qv(h), (cfg.descent as int, 1int), qv(sc)) {
            Ok(ca) => {
                assert(g.contours@.map_values(|c: Contour| c.points@) =~= ca.0);
                assert(g.anchors@.map_values(|a: Anchor| av(a)) =~= ca.1);
            },
            Err(_) => {},
        }
    }
    Ok(g)
}

/// Re-running the same conversion on the same document and
/// configuration yields the identical glyph record: the conversion is
/// a function of its inputs alone, with no hidden state.
pub proof fn lemma_conversion_deterministic(
    doc: SvgDocument,
    cfg: ConversionConfig,
    g1: GlyphM,
    g2: GlyphM,
)
    requires
        convert_document_m(doc, cfg) == Ok::<GlyphM, ConvertError>(g1),
        convert_document_m(doc, cfg) == Ok::<GlyphM, ConvertError>(g2),
    ensures
        g1 == g2,
{
}

} // verus!
