use svg2glif::contour::{segments_to_contours, Contour, ContourPoint, GlifEvent, PathCommand, PointKind};
use svg2glif::geom::{apply_transform, compose, map_point, t_identity, SrcPoint, Transform2D};
use svg2glif::num::Q;
use svg2glif::parse::parse_length;
use svg2glif::walk::SvgNode;
use svg2glif::{convert_document, ConversionConfig, ConvertError, SvgDocument};

fn path_doc(d: &str) -> SvgDocument {
    SvgDocument {
        width: Some(b"100".to_vec()),
        height: Some(b"100".to_vec()),
        root: SvgNode::Group {
            transform: None,
            children: vec![SvgNode::Path {
                transform: None,
                d: Some(d.as_bytes().to_vec()),
            }],
        },
    }
}

fn points(c: &Contour) -> Vec<(i64, i64, PointKind, bool)> {
    c.points
        .iter()
        .map(|p| (p.x, p.y, p.kind, p.is_start))
        .collect()
}

#[test]
fn square_path_maps_to_font_units() {
    let doc = path_doc("M 10 10 L 90 10 L 90 90 L 10 90 Z");
    let cfg = ConversionConfig::new(1000, 0);
    let g = convert_document(&doc, &cfg).unwrap();
    assert_eq!(g.width, 1000);
    assert_eq!(g.height, 1000);
    assert_eq!(g.contours.len(), 1);
    assert_eq!(
        points(&g.contours[0]),
        vec![
            (100, 900, PointKind::OnCurveCorner, true),
            (900, 900, PointKind::OnCurveCorner, false),
            (900, 100, PointKind::OnCurveCorner, false),
            (100, 100, PointKind::OnCurveCorner, false),
        ]
    );
}

#[test]
fn descent_shifts_y_without_clamping() {
    let doc = path_doc("M 10 10 L 90 10 L 90 90 L 10 90 Z");
    let cfg = ConversionConfig::new(1000, 200);
    let g = convert_document(&doc, &cfg).unwrap();
    let ys: Vec<i64> = g.contours[0].points.iter().map(|p| p.y).collect();
    assert_eq!(ys, vec![-1100, -1100, -1900, -1900]);
}

#[test]
fn nested_translate_offsets_before_mapping() {
    let doc = SvgDocument {
        width: Some(b"100".to_vec()),
        height: Some(b"100".to_vec()),
        root: SvgNode::Group {
            transform: None,
            children: vec![SvgNode::Group {
                transform: Some(b"translate(10,0)".to_vec()),
                children: vec![SvgNode::Path {
                    transform: None,
                    d: Some(b"M 0 0 L 10 0".to_vec()),
                }],
            }],
        },
    };
    let cfg = ConversionConfig::new(1000, 0);
    let g = convert_document(&doc, &cfg).unwrap();
    assert_eq!(g.contours.len(), 1);
    let xs: Vec<i64> = g.contours[0].points.iter().map(|p| p.x).collect();
    assert_eq!(xs, vec![100, 200]);
}

#[test]
fn text_node_becomes_named_anchor() {
    let doc = SvgDocument {
        width: Some(b"100".to_vec()),
        height: Some(b"100".to_vec()),
        root: SvgNode::Group {
            transform: None,
            children: vec![SvgNode::Text {
                transform: None,
                x: Some(b"5".to_vec()),
                y: Some(b"5".to_vec()),
                content: Some(b"top".to_vec()),
            }],
        },
    };
    let cfg = ConversionConfig::new(1000, 0);
    let g = convert_document(&doc, &cfg).unwrap();
    assert_eq!(g.anchors.len(), 1);
    assert_eq!(g.anchors[0].name, b"top".to_vec());
    assert_eq!((g.anchors[0].x, g.anchors[0].y), (50, 950));
}

#[test]
fn whitespace_only_text_yields_no_anchor() {
    let doc = SvgDocument {
        width: Some(b"100".to_vec()),
        height: Some(b"100".to_vec()),
        root: SvgNode::Group {
            transform: None,
            children: vec![SvgNode::Text {
                transform: None,
                x: None,
                y: None,
                content: Some(b"   ".to_vec()),
            }],
        },
    };
    let cfg = ConversionConfig::new(1000, 0);
    let g = convert_document(&doc, &cfg).unwrap();
    assert_eq!(g.anchors.len(), 0);
}

#[test]
fn control_character_name_is_skipped() {
    let doc = SvgDocument {
        width: Some(b"100".to_vec()),
        height: Some(b"100".to_vec()),
        root: SvgNode::Group {
            transform: None,
            children: vec![SvgNode::Text {
                transform: None,
                x: None,
                y: None,
                content: Some(vec![116, 111, 7, 112]),
            }],
        },
    };
    let cfg = ConversionConfig::new(1000, 0);
    let g = convert_document(&doc, &cfg).unwrap();
    assert_eq!(g.anchors.len(), 0);
}

#[test]
fn conversion_is_deterministic() {
    let cfg = ConversionConfig::new(1000, 150).with_unicode(b"0041".to_vec());
    let g1 = convert_document(&path_doc("M 1 2 C 3 4 5 6 7 8 Z"), &cfg).unwrap();
    let g2 = convert_document(&path_doc("M 1 2 C 3 4 5 6 7 8 Z"), &cfg).unwrap();
    assert_eq!(g1, g2);
}

#[test]
fn composed_transform_applies_like_two_transforms() {
    let t1 = Transform2D { a: 2, b: 0, c: 0, d: 2, e: 5, f: -3, den: 1 };
    let t2 = Transform2D { a: 1, b: 2, c: 3, d: 4, e: 5, f: 6, den: 2 };
    let p = SrcPoint { x: 7, y: -11, den: 3 };
    let c = compose(&t1, &t2).unwrap();
    let both = apply_transform(&c, &p).unwrap();
    let inner = apply_transform(&t2, &p).unwrap();
    let outer = apply_transform(&t1, &inner).unwrap();
    assert_eq!(both, outer);
}

#[test]
fn polyline_counts_points_before_and_after_elision() {
    let cfg = ConversionConfig::new(100, 0);
    // no repeated start coordinate: N + 1 points stay
    let g = convert_document(&path_doc("M 0 0 L 10 0 L 10 10 Z"), &cfg).unwrap();
    assert_eq!(g.contours[0].points.len(), 3);
    // the start coordinate repeated at the end: elision drops it
    let g2 = convert_document(&path_doc("M 0 0 L 10 0 L 0 0 Z"), &cfg).unwrap();
    assert_eq!(g2.contours[0].points.len(), 2);
}

#[test]
fn cubic_emits_two_off_then_smooth() {
    let cfg = ConversionConfig::new(100, 0);
    let g = convert_document(&path_doc("M 0 0 C 10 0 20 10 30 10"), &cfg).unwrap();
    let ps = points(&g.contours[0]);
    assert_eq!(ps.len(), 4);
    assert_eq!(ps[1].2, PointKind::OffCurve);
    assert_eq!(ps[2].2, PointKind::OffCurve);
    assert_eq!(ps[3].2, PointKind::OnCurveSmooth);
    assert!(!ps[1].3 && !ps[2].3 && !ps[3].3);
}

#[test]
fn quadratic_emits_nothing() {
    let cfg = ConversionConfig::new(100, 0);
    let g = convert_document(&path_doc("M 0 0 Q 5 5 10 0 L 20 0"), &cfg).unwrap();
    assert_eq!(g.contours[0].points.len(), 2);
}

#[test]
fn pure_flip_with_unit_scale() {
    let cfg = ConversionConfig::new(100, 0);
    let g = convert_document(&path_doc("M 30 40 L 31 41"), &cfg).unwrap();
    assert_eq!(points(&g.contours[0])[0].0, 30);
    assert_eq!(points(&g.contours[0])[0].1, 60);
    assert_eq!(points(&g.contours[0])[1].0, 31);
    assert_eq!(points(&g.contours[0])[1].1, 59);
}

#[test]
fn relative_commands_accumulate() {
    let cfg = ConversionConfig::new(100, 0);
    let g = convert_document(&path_doc("m 10 10 l 5 0 v 5 h -5"), &cfg).unwrap();
    let ps = points(&g.contours[0]);
    assert_eq!(
        ps.iter().map(|p| (p.0, p.1)).collect::<Vec<_>>(),
        vec![(10, 90), (15, 90), (15, 85), (10, 85)]
    );
}

#[test]
fn smooth_curve_reflects_previous_control() {
    let cmds = svg2glif::path::parse_path(b"M 0 0 C 0 10 10 10 10 0 S 20 -10 20 0").unwrap();
    match cmds[2] {
        PathCommand::CurveTo { x1, y1, .. } => {
            assert_eq!(x1, Q { n: 10, d: 1 });
            assert_eq!(y1, Q { n: -10, d: 1 });
        }
        _ => panic!("expected a cubic command"),
    }
}

#[test]
fn arcs_are_unsupported_with_position() {
    let cfg = ConversionConfig::new(100, 0);
    let r = convert_document(&path_doc("M 0 0 A 1 1 0 0 0 10 10"), &cfg);
    assert_eq!(r.unwrap_err(), ConvertError::UnsupportedPathCommand { at: 6 });
}

#[test]
fn path_must_start_with_a_move() {
    let cfg = ConversionConfig::new(100, 0);
    let r = convert_document(&path_doc("L 10 10"), &cfg);
    assert_eq!(r.unwrap_err(), ConvertError::MalformedPathData { at: 0 });
}

#[test]
fn path_error_names_the_offending_position() {
    let cfg = ConversionConfig::new(100, 0);
    let r = convert_document(&path_doc("M 0 0 L x 1"), &cfg);
    assert_eq!(r.unwrap_err(), ConvertError::MalformedPathData { at: 8 });
}

#[test]
fn rotate_is_unsupported_transform() {
    let doc = SvgDocument {
        width: Some(b"100".to_vec()),
        height: Some(b"100".to_vec()),
        root: SvgNode::Group {
            transform: Some(b"rotate(45)".to_vec()),
            children: vec![],
        },
    };
    let cfg = ConversionConfig::new(100, 0);
    assert_eq!(
        convert_document(&doc, &cfg).unwrap_err(),
        ConvertError::UnsupportedTransform { at: 0 }
    );
}

#[test]
fn nonbreaking_space_is_trimmed_from_anchor_names() {
    let mut content = vec![0xC2u8, 0xA0];
    content.extend_from_slice(b"top");
    content.extend_from_slice(&[0xC2, 0xA0]);
    let doc = SvgDocument {
        width: Some(b"100".to_vec()),
        height: Some(b"100".to_vec()),
        root: SvgNode::Group {
            transform: None,
            children: vec![SvgNode::Text {
                transform: None,
                x: None,
                y: None,
                content: Some(content),
            }],
        },
    };
    let cfg = ConversionConfig::new(1000, 0);
    let g = convert_document(&doc, &cfg).unwrap();
    assert_eq!(g.anchors.len(), 1);
    assert_eq!(g.anchors[0].name, b"top".to_vec());
}

#[test]
fn unsupported_unit_is_fatal() {
    let doc = SvgDocument {
        width: Some(b"50em".to_vec()),
        height: Some(b"100".to_vec()),
        root: SvgNode::Group { transform: None, children: vec![] },
    };
    let cfg = ConversionConfig::new(100, 0);
    assert_eq!(
        convert_document(&doc, &cfg).unwrap_err(),
        ConvertError::UnsupportedUnit
    );
}

#[test]
fn malformed_length_is_fatal() {
    let doc = SvgDocument {
        width: Some(b"abc".to_vec()),
        height: Some(b"100".to_vec()),
        root: SvgNode::Group { transform: None, children: vec![] },
    };
    let cfg = ConversionConfig::new(100, 0);
    assert_eq!(
        convert_document(&doc, &cfg).unwrap_err(),
        ConvertError::MalformedLength
    );
}

#[test]
fn zero_height_is_invalid() {
    let doc = SvgDocument {
        width: Some(b"100".to_vec()),
        height: Some(b"0".to_vec()),
        root: SvgNode::Group { transform: None, children: vec![] },
    };
    let cfg = ConversionConfig::new(100, 0);
    assert_eq!(
        convert_document(&doc, &cfg).unwrap_err(),
        ConvertError::InvalidDimensions
    );
}

#[test]
fn malformed_transform_is_fatal() {
    let doc = SvgDocument {
        width: Some(b"100".to_vec()),
        height: Some(b"100".to_vec()),
        root: SvgNode::Group {
            transform: Some(b"garbage(1)".to_vec()),
            children: vec![],
        },
    };
    let cfg = ConversionConfig::new(100, 0);
    assert_eq!(
        convert_document(&doc, &cfg).unwrap_err(),
        ConvertError::MalformedTransform
    );
}

#[test]
fn decimal_and_exponent_lengths_parse_exactly() {
    assert_eq!(parse_length(b"12.5").unwrap(), Q { n: 125, d: 10 });
    assert_eq!(parse_length(b"1e2").unwrap(), Q { n: 100, d: 1 });
    assert_eq!(parse_length(b"-.5").unwrap(), Q { n: -5, d: 10 });
    assert_eq!(parse_length(b"50px").unwrap(), Q { n: 50, d: 1 });
    assert_eq!(parse_length(b"2.5e-2").unwrap(), Q { n: 25, d: 1000 });
}

#[test]
fn matrix_transform_scales_control_points() {
    // a non-uniform scale must bend the curve: control points move too
    let doc = SvgDocument {
        width: Some(b"100".to_vec()),
        height: Some(b"100".to_vec()),
        root: SvgNode::Group {
            transform: Some(b"matrix(2 0 0 1 0 0)".to_vec()),
            children: vec![SvgNode::Path {
                transform: None,
                d: Some(b"M 0 0 C 10 0 20 10 30 10".to_vec()),
            }],
        },
    };
    let cfg = ConversionConfig::new(100, 0);
    let g = convert_document(&doc, &cfg).unwrap();
    let xs: Vec<i64> = g.contours[0].points.iter().map(|p| p.x).collect();
    assert_eq!(xs, vec![0, 20, 40, 60]);
}

#[test]
fn unicode_hex_is_parsed_or_dropped() {
    let doc = || path_doc("M 0 0 L 1 1");
    let g = convert_document(&doc(), &ConversionConfig::new(100, 0).with_unicode(b"0041".to_vec()))
        .unwrap();
    assert_eq!(g.codepoint, Some(0x41));
    let g2 = convert_document(&doc(), &ConversionConfig::new(100, 0).with_unicode(b"zz".to_vec()))
        .unwrap();
    assert_eq!(g2.codepoint, None);
    let g3 = convert_document(&doc(), &ConversionConfig::new(100, 0).with_unicode(b"D800".to_vec()))
        .unwrap();
    assert_eq!(g3.codepoint, None);
}

#[test]
fn glyph_name_defaults_and_overrides() {
    let g = convert_document(&path_doc("M 0 0"), &ConversionConfig::new(100, 0)).unwrap();
    assert_eq!(g.name, "svgglyph");
    let g2 = convert_document(
        &path_doc("M 0 0"),
        &ConversionConfig::new(100, 0).with_name("acute".to_string()),
    )
    .unwrap();
    assert_eq!(g2.name, "acute");
}

#[test]
fn segments_split_at_moves_and_closes() {
    let events = vec![
        GlifEvent::MoveTo(0, 0),
        GlifEvent::LineTo(1, 0),
        GlifEvent::ClosePath,
        GlifEvent::MoveTo(5, 5),
        GlifEvent::LineTo(6, 5),
    ];
    let cs = segments_to_contours(events);
    assert_eq!(cs.len(), 2);
    assert_eq!(cs[0].len(), 3);
    assert_eq!(cs[1].len(), 2);
    assert!(matches!(cs[0][2], GlifEvent::ClosePath));
}

#[test]
fn two_moves_leave_a_degenerate_contour() {
    let cfg = ConversionConfig::new(100, 0);
    let g = convert_document(&path_doc("M 1 1 M 2 2 L 3 3"), &cfg).unwrap();
    assert_eq!(g.contours.len(), 2);
    assert_eq!(g.contours[0].points.len(), 1);
    assert_eq!(g.contours[1].points.len(), 2);
}

#[test]
fn map_point_rounds_half_away_from_zero() {
    // 0.5 in source space with unit scale rounds away from zero
    let p = SrcPoint { x: 1, y: 199, den: 2 };
    let r = map_point(
        &t_identity(),
        &p,
        Q { n: 100, d: 1 },
        Q { n: 0, d: 1 },
        Q { n: 1, d: 1 },
    )
    .unwrap();
    // x = 0.5 -> 1; y = 100 - 99.5 = 0.5 -> 1
    assert_eq!(r, (1, 1));
}
