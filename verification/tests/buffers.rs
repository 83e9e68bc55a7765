use car_game::buffers::{
    index_buffer_bytes, instance_layout, vertex_buffer_bytes, vertex_layout, vertex_words_of, Attribute,
    Format, StepMode,
};
use car_game::object::{parse_object, VertexBits};

fn vertex(seed: u32) -> VertexBits {
    VertexBits {
        position: [seed, seed + 1],
        color: [seed + 2, seed + 3, seed + 4, seed + 5],
    }
}

#[test]
fn vertex_words_follow_storage_order() {
    let vs = [vertex(10), vertex(100)];
    assert_eq!(
        vertex_words_of(&vs),
        vec![10, 11, 12, 13, 14, 15, 100, 101, 102, 103, 104, 105]
    );
    assert!(vertex_words_of(&[]).is_empty());
}

#[test]
fn index_buffer_is_native_byte_image() {
    let idx = [1u32, 0x0102_0304, u32::MAX];
    let bytes = index_buffer_bytes(&idx);
    assert_eq!(bytes.len(), 12);
    let mut expected = Vec::new();
    for i in idx.iter() {
        expected.extend_from_slice(&i.to_ne_bytes());
    }
    assert_eq!(bytes, expected);
}

#[test]
fn vertex_buffer_has_a_stride_of_24_bytes() {
    let vs = [vertex(1), vertex(7), vertex(0xdead_0000)];
    let bytes = vertex_buffer_bytes(&vs);
    assert_eq!(bytes.len(), 24 * 3);
    for (k, v) in vs.iter().enumerate() {
        let at = 24 * k;
        assert_eq!(&bytes[at..at + 4], &v.position[0].to_ne_bytes());
        assert_eq!(&bytes[at + 20..at + 24], &v.color[3].to_ne_bytes());
    }
}

#[test]
fn vertex_buffer_matches_float_layout() {
    let v = VertexBits {
        position: [0.25f32.to_bits(), (-3.0f32).to_bits()],
        color: [1.0f32.to_bits(), 0.5f32.to_bits(), 0.0f32.to_bits(), 1.0f32.to_bits()],
    };
    let bytes = vertex_buffer_bytes(&[v]);
    let floats: [f32; 6] = [0.25, -3.0, 1.0, 0.5, 0.0, 1.0];
    let mut expected = Vec::new();
    for f in floats.iter() {
        expected.extend_from_slice(&f.to_ne_bytes());
    }
    assert_eq!(bytes, expected);
}

#[test]
fn vertex_buffer_words_are_the_file_vertex_region() {
    let mut file: Vec<u8> = Vec::new();
    for w in [0u32, 0, 1, 9, 2] {
        file.extend_from_slice(&w.to_be_bytes());
    }
    let region: Vec<u32> = (100u32..112).collect();
    for w in region.iter() {
        file.extend_from_slice(&w.to_be_bytes());
    }
    let obj = parse_object(&file);
    assert_eq!(obj.indices, vec![9]);
    assert_eq!(vertex_words_of(&obj.vertices), region);
}

#[test]
fn vertex_layout_describes_the_vertex_record() {
    let l = vertex_layout();
    assert_eq!(l.array_stride, 24);
    assert_eq!(l.array_stride as usize, std::mem::size_of::<[f32; 6]>());
    assert_eq!(l.step_mode, StepMode::Vertex);
    assert_eq!(
        l.attributes,
        vec![
            Attribute { offset: 0, shader_location: 0, format: Format::Float32x2 },
            Attribute { offset: 8, shader_location: 1, format: Format::Float32x4 },
        ]
    );
    assert_eq!(vertex_buffer_bytes(&[vertex(3)]).len() as u64, l.array_stride);
}

#[test]
fn instance_layout_describes_the_instance_record() {
    let l = instance_layout();
    assert_eq!(l.array_stride, 24);
    assert_eq!(l.step_mode, StepMode::Instance);
    assert_eq!(
        l.attributes,
        vec![
            Attribute { offset: 0, shader_location: 2, format: Format::Float32x2 },
            Attribute { offset: 8, shader_location: 3, format: Format::Float32x4 },
        ]
    );
}
