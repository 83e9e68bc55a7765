use car_game::object::{object_is_well_formed, parse_object, read_be_u32, VertexBits};

fn word(bytes: &mut Vec<u8>, w: u32) {
    bytes.extend_from_slice(&w.to_be_bytes());
}

fn float(bytes: &mut Vec<u8>, f: f32) {
    bytes.extend_from_slice(&f.to_be_bytes());
}

/// A triangle: centre (1.5, -2), indices 0 1 2, three coloured vertices.
fn triangle() -> Vec<u8> {
    let mut b = Vec::new();
    float(&mut b, 1.5);
    float(&mut b, -2.0);
    word(&mut b, 3);
    for i in [0u32, 1, 2] {
        word(&mut b, i);
    }
    word(&mut b, 3);
    let verts: [[f32; 6]; 3] = [
        [0.0, 0.0, 1.0, 0.0, 0.0, 1.0],
        [1.0, 0.0, 0.0, 1.0, 0.0, 1.0],
        [0.0, 1.0, 0.0, 0.0, 1.0, 0.5],
    ];
    for v in verts.iter() {
        for c in v.iter() {
            float(&mut b, *c);
        }
    }
    b
}

#[test]
fn reads_big_endian_words() {
    let bytes = [0x12u8, 0x34, 0x56, 0x78, 0x9a];
    assert_eq!(read_be_u32(&bytes, 0), 0x1234_5678);
    assert_eq!(read_be_u32(&bytes, 1), 0x3456_789a);
    assert_eq!(read_be_u32(&[0xff, 0xff, 0xff, 0xff], 0), u32::MAX);
}

#[test]
fn parses_a_triangle() {
    let b = triangle();
    assert_eq!(b.len(), 8 + 4 + 12 + 4 + 72);
    assert!(object_is_well_formed(&b));
    let obj = parse_object(&b);
    assert_eq!(f32::from_bits(obj.center[0]), 1.5);
    assert_eq!(f32::from_bits(obj.center[1]), -2.0);
    assert_eq!(obj.indices, vec![0, 1, 2]);
    assert_eq!(obj.vertices.len(), 3);
    assert_eq!(
        obj.vertices[2],
        VertexBits {
            position: [0.0f32.to_bits(), 1.0f32.to_bits()],
            color: [0.0f32.to_bits(), 0.0f32.to_bits(), 1.0f32.to_bits(), 0.5f32.to_bits()],
        }
    );
    assert_eq!(f32::from_bits(obj.vertices[0].color[0]), 1.0);
}

#[test]
fn parses_an_empty_object() {
    let mut b = Vec::new();
    float(&mut b, 0.0);
    float(&mut b, 0.0);
    word(&mut b, 0);
    word(&mut b, 0);
    assert!(object_is_well_formed(&b));
    let obj = parse_object(&b);
    assert_eq!(obj.center, [0, 0]);
    assert!(obj.indices.is_empty());
    assert!(obj.vertices.is_empty());
}

#[test]
fn ignores_trailing_bytes() {
    let mut b = triangle();
    let plain = parse_object(&b);
    b.extend_from_slice(&[7, 7, 7]);
    assert!(object_is_well_formed(&b));
    let padded = parse_object(&b);
    assert_eq!(plain.center, padded.center);
    assert_eq!(plain.indices, padded.indices);
    assert_eq!(plain.vertices, padded.vertices);
}

#[test]
fn rejects_short_headers() {
    assert!(!object_is_well_formed(&[]));
    assert!(!object_is_well_formed(&[0u8; 11]));
    // centre and index count present, vertex count missing
    assert!(!object_is_well_formed(&[0u8; 12]));
    assert!(object_is_well_formed(&[0u8; 16]));
}

#[test]
fn rejects_truncated_bodies() {
    let b = triangle();
    for cut in 0..b.len() {
        assert!(!object_is_well_formed(&b[..cut]), "cut at {}", cut);
    }
}

#[test]
fn rejects_huge_counts() {
    let mut b = Vec::new();
    word(&mut b, 0);
    word(&mut b, 0);
    word(&mut b, u32::MAX);
    assert!(!object_is_well_formed(&b));
    let mut c = Vec::new();
    word(&mut c, 0);
    word(&mut c, 0);
    word(&mut c, 0);
    word(&mut c, u32::MAX);
    c.extend_from_slice(&[0u8; 48]);
    assert!(!object_is_well_formed(&c));
}
