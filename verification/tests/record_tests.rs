use tinyrenderer::record::{
    classify, DecodeError, Face, Normal, RecordKind, Scalar, TextureCoordinate, Vertex,
};

fn float(number: &Scalar) -> f32 {
    number.as_str().parse::<f32>().unwrap()
}

fn groups(texts: &[Option<&str>]) -> Option<Vec<Option<String>>> {
    Some(texts.iter().map(|text| text.map(|text| text.to_string())).collect())
}

#[test]
fn classify_tells_the_four_kinds() {
    assert_eq!(classify("v 1.0 2.0 3.0"), Some(RecordKind::Vertex));
    assert_eq!(classify("vt 0.5 0.5 0.0"), Some(RecordKind::TextureCoordinate));
    assert_eq!(classify("vn 0.0 1.0 0.0"), Some(RecordKind::Normal));
    assert_eq!(classify("f 1/1/1 2/2/2 3/3/3"), Some(RecordKind::Face));
    assert_eq!(classify("v"), Some(RecordKind::Vertex));
    assert_eq!(classify("vt"), Some(RecordKind::TextureCoordinate));
    assert_eq!(classify("vn"), Some(RecordKind::Normal));
    assert_eq!(classify("f"), Some(RecordKind::Face));
    assert_eq!(classify("v  1 2 3"), Some(RecordKind::Vertex));
}

#[test]
fn classify_passes_over_other_lines() {
    for line in [
        "", " ", "# a comment", "g head", "s 1", "vx 1 2 3", "vtx 1", "vnn", "ff", "fv",
        " v 1 2 3", "V 1 2 3", "v\t1 2 3", "mtllib a.mtl", "\u{444} 1/1/1", "vp 1 2",
    ] {
        assert_eq!(classify(line), None, "{:?}", line);
    }
}

#[test]
fn scalar_keeps_what_was_written() {
    let number = Scalar::parse("-0.000581696").unwrap();
    assert_eq!(number.as_str(), "-0.000581696");
    assert_eq!(float(&number), -0.000581696);
    assert_eq!(number.clone(), number);
    assert!(Scalar::parse("1e-").is_none());
    assert!(Scalar::parse("").is_none());
    assert_eq!(Scalar::zero().as_str(), "0");
    assert_eq!(float(&Scalar::zero()), 0.0);
}

#[test]
fn vertex_line_reads_its_three_numbers() {
    let vertex = Vertex::new("v 1.0 2.0 3.0\n");
    assert_eq!(vertex.x.as_str(), "1.0");
    assert_eq!(vertex.y.as_str(), "2.0");
    assert_eq!(vertex.z.as_str(), "3.0");
    assert_eq!((float(&vertex.x), float(&vertex.y), float(&vertex.z)), (1.0, 2.0, 3.0));
    assert_eq!(Vertex::decode("v 1.0 2.0 3.0"), Ok(vertex.clone()));
}

#[test]
fn vertex_line_with_signs_fractions_and_exponents() {
    let vertex = Vertex::decode("v -0.000581696 -.734665 5e-3").unwrap();
    assert_eq!(vertex.x.as_str(), "-0.000581696");
    assert_eq!(vertex.y.as_str(), "-.734665");
    assert_eq!(vertex.z.as_str(), "5e-3");
    assert_eq!(float(&vertex.z), 0.005);
    let vertex = Vertex::decode("v   7 8. 9").unwrap();
    assert_eq!((float(&vertex.x), float(&vertex.y), float(&vertex.z)), (7.0, 8.0, 9.0));
}

#[test]
fn vertex_line_that_has_not_the_shape() {
    assert_eq!(Vertex::decode("v a b c"), Err(DecodeError::Unmatched));
    assert_eq!(Vertex::decode("v 1.0"), Err(DecodeError::Unmatched));
    assert_eq!(Vertex::decode("v"), Err(DecodeError::Unmatched));
    assert_eq!(Vertex::new("v a b c"), Vertex::zero());
    let zero = Vertex::zero();
    assert_eq!((float(&zero.x), float(&zero.y), float(&zero.z)), (0.0, 0.0, 0.0));
}

#[test]
fn vertex_line_with_a_field_that_is_no_number() {
    assert_eq!(Vertex::decode("v 1.0 . 3.0"), Err(DecodeError::Field));
    assert_eq!(Vertex::decode("v 1.0 2.0"), Err(DecodeError::Field));
    assert_eq!(Vertex::decode("v 1.0  3.0"), Err(DecodeError::Field));
    assert_eq!(Vertex::decode("v 1.0 - 3.0"), Err(DecodeError::Field));
    assert_eq!(Vertex::decode("v 1.0 2.0 e-"), Err(DecodeError::Field));
    assert_eq!(Vertex::decode("v \u{661} 2 3"), Err(DecodeError::Field));
    assert_eq!(Vertex::new("v 1.0 . 3.0"), Vertex::zero());
}

#[test]
fn vertex_from_groups_takes_the_named_ones() {
    let found = groups(&[
        Some("v 1 2 3"),
        Some("1"),
        Some("a"),
        Some("b"),
        None,
        Some("2"),
        Some("c"),
        Some("d"),
        None,
        Some("3"),
        Some("e"),
        Some("f"),
        None,
    ]);
    let vertex = Vertex::from_captures(&found).unwrap();
    assert_eq!((vertex.x.as_str(), vertex.y.as_str(), vertex.z.as_str()), ("1", "2", "3"));
    assert_eq!(Vertex::from_captures(&None), Err(DecodeError::Unmatched));
    assert_eq!(Vertex::from_captures(&groups(&[Some("v"), Some("1")])), Err(DecodeError::Field));
    let absent = groups(&[Some("v"), Some("1"), None, None, None, None, None, None, None, Some("3")]);
    assert_eq!(Vertex::from_captures(&absent), Err(DecodeError::Field));
}

#[test]
fn normal_line_reads_its_three_numbers() {
    let normal = Normal::new("vn  0.001 0.482 -0.876");
    assert_eq!((float(&normal.x), float(&normal.y), float(&normal.z)), (0.001, 0.482, -0.876));
    assert_eq!(normal.z.as_str(), "-0.876");
    assert_eq!(Normal::decode("vn 1"), Err(DecodeError::Unmatched));
    assert_eq!(Normal::decode("vn 1 2"), Err(DecodeError::Field));
    assert_eq!(Normal::decode("vn 1 - 2"), Err(DecodeError::Field));
    assert_eq!(Normal::new("vn x"), Normal::zero());
    assert_eq!(Normal::zero().x.as_str(), "0");
    assert_eq!(Normal::from_captures(&None), Err(DecodeError::Unmatched));
}

#[test]
fn normal_pattern_is_not_the_vertex_pattern() {
    assert_eq!(Vertex::decode("vn 1 2 3"), Err(DecodeError::Unmatched));
    assert!(Normal::decode("vn 1 2 3").is_ok());
}

#[test]
fn texcoord_line_with_three_numbers() {
    let texcoord = TextureCoordinate::new("vt  0.532 0.923 0.000");
    assert_eq!(texcoord.u.as_str(), "0.532");
    assert_eq!(texcoord.v.as_str(), "0.923");
    assert_eq!(texcoord.w.as_str(), "0.000");
    assert_eq!((float(&texcoord.u), float(&texcoord.v), float(&texcoord.w)), (0.532, 0.923, 0.0));
}

#[test]
fn texcoord_line_with_missing_numbers() {
    let texcoord = TextureCoordinate::decode("vt 0.5 0.25").unwrap();
    assert_eq!((float(&texcoord.u), float(&texcoord.v), float(&texcoord.w)), (0.5, 0.25, 0.0));
    assert_eq!(texcoord.w, Scalar::zero());
    let texcoord = TextureCoordinate::decode("vt 0.5").unwrap();
    assert_eq!((float(&texcoord.u), float(&texcoord.v), float(&texcoord.w)), (0.5, 0.0, 0.0));
    assert_eq!(texcoord.v, Scalar::zero());
}

#[test]
fn texcoord_line_that_cannot_be_read() {
    assert_eq!(TextureCoordinate::decode("vt"), Err(DecodeError::Field));
    assert_eq!(TextureCoordinate::decode("vt abc"), Err(DecodeError::Field));
    assert_eq!(TextureCoordinate::decode("vt 0.5 ."), Err(DecodeError::Field));
    assert_eq!(TextureCoordinate::decode("x 0.5"), Err(DecodeError::Unmatched));
    assert_eq!(TextureCoordinate::new("vt abc"), TextureCoordinate::zero());
    assert_eq!(TextureCoordinate::from_captures(&None), Err(DecodeError::Unmatched));
}

#[test]
fn texcoord_from_groups_fills_in_zeros() {
    let found = groups(&[Some("vt 1"), Some("1"), None, None, None, None, None, None, None, Some("")]);
    let texcoord = TextureCoordinate::from_captures(&found).unwrap();
    assert_eq!((texcoord.u.as_str(), texcoord.v.as_str(), texcoord.w.as_str()), ("1", "0", "0"));
    let short = groups(&[Some("vt 1"), Some("1")]);
    let texcoord = TextureCoordinate::from_captures(&short).unwrap();
    assert_eq!((texcoord.u.as_str(), texcoord.v.as_str(), texcoord.w.as_str()), ("1", "0", "0"));
    let wrong = groups(&[Some("vt 1"), Some("1"), None, None, None, Some("-")]);
    assert_eq!(TextureCoordinate::from_captures(&wrong), Err(DecodeError::Field));
}

#[test]
fn face_line_keeps_its_indices_as_written() {
    let face = Face::new("f 1/1/1 2/2/2 3/3/3\n");
    assert_eq!(face.point, [1, 2, 3]);
    assert_eq!(face.tex, [1, 2, 3]);
    assert_eq!(face.norm, [1, 2, 3]);
    let face = Face::decode("f 24/1/25 26/2/27 28/3/29").unwrap();
    assert_eq!(face, Face { point: [24, 26, 28], tex: [1, 2, 3], norm: [25, 27, 29] });
    let face = Face::decode("f  4294967295/0/007 1/1/1 2/2/2").unwrap();
    assert_eq!(face, Face { point: [u32::MAX, 1, 2], tex: [0, 1, 2], norm: [7, 1, 2] });
}

#[test]
fn face_line_that_cannot_be_read() {
    assert_eq!(Face::decode("f 1 2 3"), Err(DecodeError::Unmatched));
    assert_eq!(Face::decode("f 1/1/1 2/2/2"), Err(DecodeError::Unmatched));
    assert_eq!(Face::decode("f 1//1 2//2 3//3"), Err(DecodeError::Field));
    assert_eq!(Face::decode("f 1/1/1 2/2/2 3/3/"), Err(DecodeError::Field));
    assert_eq!(Face::decode("f 4294967296/1/1 2/2/2 3/3/3"), Err(DecodeError::Field));
    assert_eq!(Face::decode("f \u{661}/1/1 2/2/2 3/3/3"), Err(DecodeError::Field));
    assert_eq!(Face::new("f 1 2 3"), Face::zero());
    assert_eq!(Face::new("f 1//1 2//2 3//3"), Face { point: [0, 0, 0], tex: [0, 0, 0], norm: [0, 0, 0] });
}

#[test]
fn face_from_groups_reads_three_corners() {
    let found = groups(&[
        Some("f 1/2/3 4/5/6 7/8/9"),
        Some("1"),
        Some("2"),
        Some("3"),
        Some("4"),
        Some("5"),
        Some("6"),
        Some("7"),
        Some("8"),
        Some("9"),
    ]);
    assert_eq!(
        Face::from_captures(&found),
        Ok(Face { point: [1, 4, 7], tex: [2, 5, 8], norm: [3, 6, 9] })
    );
    assert_eq!(Face::from_captures(&None), Err(DecodeError::Unmatched));
    assert_eq!(Face::from_captures(&groups(&[Some("f"), Some("1")])), Err(DecodeError::Field));
    let absent = groups(&[
        Some("f"), Some("1"), Some("2"), Some("3"), Some("4"), None, Some("6"), Some("7"), Some("8"), Some("9"),
    ]);
    assert_eq!(Face::from_captures(&absent), Err(DecodeError::Field));
}
