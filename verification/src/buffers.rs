//! The byte images of the vertex and index buffers that are uploaded to the GPU.
//!
//! A vertex is six 32-bit words in storage order (see [`vertex_words`]); a
//! buffer is its words laid out one after the other in the machine's byte
//! order, as `bytemuck` produces them.

use vstd::prelude::*;
use vstd::endian::{endianness, Endian};
use crate::object::{
    ObjectData, VertexBits, vertex_count, vertex_words, vertex_words_at, vertices_at,
    words_from,
};

verus! {

/// The words of a run of vertices, vertex after vertex.
pub open spec fn vertex_buffer_words(vs: Seq<VertexBits>) -> Seq<u32> {
    vs.map_values(|v: VertexBits| vertex_words(v)).flatten()
}

/// The four bytes of `w`, least significant first.
pub open spec fn le_bytes(w: u32) -> Seq<u8> {
    seq![(w % 0x100) as u8, ((w / 0x100) % 0x100) as u8, ((w / 0x1_0000) % 0x100) as u8, (w / 0x100_0000) as u8]
}

/// The four bytes of `w`, most significant first.
pub open spec fn be_bytes(w: u32) -> Seq<u8> {
    seq![(w / 0x100_0000) as u8, ((w / 0x1_0000) % 0x100) as u8, ((w / 0x100) % 0x100) as u8, (w % 0x100) as u8]
}

/// The words of `words` laid out one after the other, each in little-endian order.
pub open spec fn le_image(words: Seq<u32>) -> Seq<u8> {
    words.map_values(|w: u32| le_bytes(w)).flatten()
}

/// The words of `words` laid out one after the other, each in big-endian order.
pub open spec fn be_image(words: Seq<u32>) -> Seq<u8> {
    words.map_values(|w: u32| be_bytes(w)).flatten()
}

/// The in-memory image of `words`: every target is either little or big endian.
pub open spec fn is_memory_image(bytes: Seq<u8>, words: Seq<u32>) -> bool {
    bytes == le_image(words) || bytes == be_image(words)
}

/// The words of `words` laid out one after the other in the byte order of the
/// machine the code runs on (`vstd::endian::endianness`), the same for every call.
pub open spec fn native_image(words: Seq<u32>) -> Seq<u8> {
    match endianness() {
        Endian::Little => le_image(words),
        Endian::Big => be_image(words),
    }
}

/// `bytemuck::cast_slice` from `u32` to `u8`: the same memory seen as bytes.
/// A `u8` needs no alignment and divides every size, so the cast never fails.
/// The contract claims the result is the words' bytes in order, each word in
/// the machine's byte order; which order that is (little or big endian) is
/// left open, but it is one order, the same on every call.
#[verifier::external_body]
fn cast_words_to_bytes(words: &[u32]) -> (bytes: Vec<u8>)
    ensures
        is_memory_image(bytes@, words@),
        bytes@ == native_image(words@),
{
    bytemuck::cast_slice::<u32, u8>(words).to_vec()
}

/// The words of `vertices`, vertex after vertex.
pub fn vertex_words_of(vertices: &[VertexBits]) -> (words: Vec<u32>)
    ensures
        words@ == vertex_buffer_words(vertices@),
{
    let mut words: Vec<u32> = Vec::new();
    let mut i: usize = 0;
    while i < vertices.len()
        invariant
            i <= vertices@.len(),
            words@ == vertex_buffer_words(vertices@.take(i as int)),
        decreases vertices@.len() - i,
    {
        let v = vertices[i];
        words.push(v.position[0]);
        words.push(v.position[1]);
        words.push(v.color[0]);
        words.push(v.color[1]);
        words.push(v.color[2]);
        words.push(v.color[3]);
        proof {
            let before = vertices@.take(i as int).map_values(|v: VertexBits| vertex_words(v));
            let after = vertices@.take(i + 1).map_values(|v: VertexBits| vertex_words(v));
            assert(after =~= before.push(vertex_words(v)));
            before.lemma_flatten_push(vertex_words(v));
            assert(vertex_words(v) =~= seq![v.position[0], v.position[1], v.color[0], v.color[1], v.color[2], v.color[3]]);
        }
        i = i + 1;
    }
    assert(vertices@.take(vertices@.len() as int) =~= vertices@);
    words
}

/// The bytes of the vertex buffer for `vertices`.
pub fn vertex_buffer_bytes(vertices: &[VertexBits]) -> (bytes: Vec<u8>)
    ensures
        is_memory_image(bytes@, vertex_buffer_words(vertices@)),
        bytes@ == native_image(vertex_buffer_words(vertices@)),
{
    let words = vertex_words_of(vertices);
    cast_words_to_bytes(words.as_slice())
}

/// The bytes of the index buffer for `indices`.
pub fn index_buffer_bytes(indices: &[u32]) -> (bytes: Vec<u8>)
    ensures
        is_memory_image(bytes@, indices@),
        bytes@ == native_image(indices@),
{
    cast_words_to_bytes(indices)
}


/// Every vertex takes six words of the vertex buffer.
pub proof fn lemma_vertex_buffer_words_len(vs: Seq<VertexBits>)
    ensures
        vertex_buffer_words(vs).len() == 6 * vs.len(),
    decreases vs.len(),
{
    if vs.len() > 0 {
        let m = vs.map_values(|v: VertexBits| vertex_words(v));
        assert(m.drop_first() =~= vs.drop_first().map_values(|v: VertexBits| vertex_words(v)));
        assert(vertex_words(vs[0]).len() == 6);
        lemma_vertex_buffer_words_len(vs.drop_first());
    }
}

/// A memory image of `n` words is `4 * n` bytes long.
pub proof fn lemma_memory_image_len(bytes: Seq<u8>, words: Seq<u32>)
    requires
        is_memory_image(bytes, words),
    ensures
        bytes.len() == 4 * words.len(),
    decreases words.len(),
{
    if words.len() > 0 {
        let rest = words.drop_first();
        let le = words.map_values(|w: u32| le_bytes(w));
        let be = words.map_values(|w: u32| be_bytes(w));
        assert(le.drop_first() =~= rest.map_values(|w: u32| le_bytes(w)));
        assert(be.drop_first() =~= rest.map_values(|w: u32| be_bytes(w)));
        lemma_memory_image_len(le_image(rest), rest);
        lemma_memory_image_len(be_image(rest), rest);
    }
}

/// The vertex buffer of `n` vertices is `24 * n` bytes: one 24-byte stride per
/// vertex, the stride of the vertex layout.
pub proof fn lemma_vertex_buffer_stride(bytes: Seq<u8>, vs: Seq<VertexBits>)
    requires
        is_memory_image(bytes, vertex_buffer_words(vs)),
    ensures
        bytes.len() == 24 * vs.len(),
{
    lemma_vertex_buffer_words_len(vs);
    lemma_memory_image_len(bytes, vertex_buffer_words(vs));
}


/// The first `k` decoded vertices give the first `6 * k` words of the file's
/// vertex region.
proof fn lemma_vertex_prefix_is_file_words(s: Seq<u8>, obj: ObjectData, k: int)
    requires
        obj.decodes(s),
        0 <= k <= obj.vertices@.len(),
    ensures
        vertex_buffer_words(obj.vertices@.take(k)) == words_from(s, vertices_at(s), (6 * k) as nat),
    decreases k,
{
    let vs = obj.vertices@;
    let base = vertices_at(s);
    if k == 0 {
        assert(vs.take(0).map_values(|v: VertexBits| vertex_words(v)) =~= Seq::<Seq<u32>>::empty());
        assert(words_from(s, base, 0) =~= Seq::<u32>::empty());
    } else {
        lemma_vertex_prefix_is_file_words(s, obj, k - 1);
        let before = vs.take(k - 1).map_values(|v: VertexBits| vertex_words(v));
        let after = vs.take(k).map_values(|v: VertexBits| vertex_words(v));
        assert(after =~= before.push(vertex_words(vs[k - 1])));
        before.lemma_flatten_push(vertex_words(vs[k - 1]));
        assert(vertex_words(vs[k - 1]) == vertex_words_at(s, k - 1));
        assert(words_from(s, base, (6 * k) as nat) =~= words_from(s, base, (6 * (k - 1)) as nat)
            + vertex_words_at(s, k - 1));
    }
}

/// The words of the vertex buffer built from a decoded object are exactly the
/// words of the file's vertex region, in file order.
pub proof fn lemma_vertex_buffer_is_file_region(s: Seq<u8>, obj: ObjectData)
    requires
        obj.decodes(s),
    ensures
        vertex_buffer_words(obj.vertices@) == words_from(s, vertices_at(s), (6 * vertex_count(s)) as nat),
{
    lemma_vertex_prefix_is_file_words(s, obj, obj.vertices@.len() as int);
    assert(obj.vertices@.take(obj.vertices@.len() as int) =~= obj.vertices@);
}


/// How the GPU steps through a buffer: once per vertex or once per instance.
#[derive(Clone, Copy, Debug, PartialEq, Eq, Structural)]
pub enum StepMode {
    Vertex,
    Instance,
}

/// The formats of the attributes the shader reads: two or four `f32`s.
#[derive(Clone, Copy, Debug, PartialEq, Eq, Structural)]
pub enum Format {
    Float32x2,
    Float32x4,
}

/// Bytes taken by one attribute of format `f`.
pub open spec fn format_bytes(f: Format) -> int {
    match f {
        Format::Float32x2 => 8,
        Format::Float32x4 => 16,
    }
}

/// One attribute of a buffer record: where it starts, which shader input it
/// feeds, and its format.
#[derive(Clone, Copy, Debug, PartialEq, Eq, Structural)]
pub struct Attribute {
    pub offset: u64,
    pub shader_location: u32,
    pub format: Format,
}

/// The layout of one GPU buffer: record size, stepping and attributes.
#[derive(Debug)]
pub struct BufferLayout {
    pub array_stride: u64,
    pub step_mode: StepMode,
    pub attributes: Vec<Attribute>,
}

/// The layout of the vertex buffer: 24-byte records, a position (two floats)
/// at 0 for shader input 0, a colour (four floats) at 8 for shader input 1.
pub open spec fn is_vertex_layout(l: BufferLayout) -> bool {
    &&& l.array_stride == 24
    &&& l.step_mode == StepMode::Vertex
    &&& l.attributes@ == seq![
        Attribute { offset: 0, shader_location: 0, format: Format::Float32x2 },
        Attribute { offset: 8, shader_location: 1, format: Format::Float32x4 },
    ]
}

/// The layout of the per-instance buffer: 24-byte records, a position (two
/// floats) at 0 for shader input 2, a rotation (four floats) at 8 for shader
/// input 3.
pub open spec fn is_instance_layout(l: BufferLayout) -> bool {
    &&& l.array_stride == 24
    &&& l.step_mode == StepMode::Instance
    &&& l.attributes@ == seq![
        Attribute { offset: 0, shader_location: 2, format: Format::Float32x2 },
        Attribute { offset: 8, shader_location: 3, format: Format::Float32x4 },
    ]
}

/// Attributes lie inside the record, in order, without overlapping, and feed
/// distinct shader inputs.
pub open spec fn layout_well_formed(l: BufferLayout) -> bool {
    &&& forall|i: int|
        0 <= i < l.attributes@.len() ==> #[trigger] l.attributes@[i].offset + format_bytes(
            l.attributes@[i].format,
        ) <= l.array_stride
    &&& forall|i: int, j: int|
        0 <= i < j < l.attributes@.len() ==> #[trigger] l.attributes@[i].offset + format_bytes(
            l.attributes@[i].format,
        ) <= #[trigger] l.attributes@[j].offset
    &&& forall|i: int, j: int|
        0 <= i < j < l.attributes@.len() ==> #[trigger] l.attributes@[i].shader_location
            != #[trigger] l.attributes@[j].shader_location
}

/// The layout of the vertex buffer.
pub fn vertex_layout() -> (l: BufferLayout)
    ensures
        is_vertex_layout(l),
{
    let mut attributes: Vec<Attribute> = Vec::new();
    attributes.push(Attribute { offset: 0, shader_location: 0, format: Format::Float32x2 });
    attributes.push(Attribute { offset: 8, shader_location: 1, format: Format::Float32x4 });
    let l = BufferLayout { array_stride: 24, step_mode: StepMode::Vertex, attributes };
    assert(l.attributes@ =~= seq![
        Attribute { offset: 0, shader_location: 0, format: Format::Float32x2 },
        Attribute { offset: 8, shader_location: 1, format: Format::Float32x4 },
    ]);
    l
}

/// The layout of the per-instance buffer.
pub fn instance_layout() -> (l: BufferLayout)
    ensures
        is_instance_layout(l),
{
    let mut attributes: Vec<Attribute> = Vec::new();
    attributes.push(Attribute { offset: 0, shader_location: 2, format: Format::Float32x2 });
    attributes.push(Attribute { offset: 8, shader_location: 3, format: Format::Float32x4 });
    let l = BufferLayout { array_stride: 24, step_mode: StepMode::Instance, attributes };
    assert(l.attributes@ =~= seq![
        Attribute { offset: 0, shader_location: 2, format: Format::Float32x2 },
        Attribute { offset: 8, shader_location: 3, format: Format::Float32x4 },
    ]);
    l
}

/// The vertex layout reads each vertex image as stored: its stride is the
/// size of a vertex's words, the position attribute covers the position
/// words and the colour attribute the colour words, without overlap.
pub proof fn lemma_vertex_layout_matches_vertex_words(l: BufferLayout, v: VertexBits)
    requires
        is_vertex_layout(l),
    ensures
        layout_well_formed(l),
        l.array_stride == 4 * vertex_words(v).len(),
        l.attributes@[0].offset == 0,
        format_bytes(l.attributes@[0].format) == 4 * v.position@.len(),
        l.attributes@[1].offset == 4 * v.position@.len(),
        format_bytes(l.attributes@[1].format) == 4 * v.color@.len(),
{
    assert(l.attributes@[0] == Attribute { offset: 0, shader_location: 0, format: Format::Float32x2 });
    assert(l.attributes@[1] == Attribute { offset: 8, shader_location: 1, format: Format::Float32x4 });
}

/// The instance layout keeps its two attributes inside a 24-byte record,
/// apart and in order: a record of six words.
pub proof fn lemma_instance_layout_well_formed(l: BufferLayout)
    requires
        is_instance_layout(l),
    ensures
        layout_well_formed(l),
        l.array_stride == 4 * 6,
{
    assert(l.attributes@[0] == Attribute { offset: 0, shader_location: 2, format: Format::Float32x2 });
    assert(l.attributes@[1] == Attribute { offset: 8, shader_location: 3, format: Format::Float32x4 });
}


/// One byte order for every buffer: the native images of any two word
/// sequences are both little endian or both big endian.
pub proof fn lemma_one_byte_order(a: Seq<u32>, b: Seq<u32>)
    ensures
        (native_image(a) == le_image(a) && native_image(b) == le_image(b)) || (native_image(a)
            == be_image(a) && native_image(b) == be_image(b)),
        is_memory_image(native_image(a), a),
{
}

/// Laying out two runs of words one after the other gives the images of the
/// runs one after the other, in whichever byte order.
pub proof fn lemma_image_of_concat(a: Seq<u32>, b: Seq<u32>)
    ensures
        le_image(a + b) == le_image(a) + le_image(b),
        be_image(a + b) == be_image(a) + be_image(b),
        native_image(a + b) == native_image(a) + native_image(b),
{
    let f = |w: u32| le_bytes(w);
    let g = |w: u32| be_bytes(w);
    assert((a + b).map_values(f) =~= a.map_values(f) + b.map_values(f));
    assert((a + b).map_values(g) =~= a.map_values(g) + b.map_values(g));
    vstd::seq_lib::lemma_flatten_concat(a.map_values(f), b.map_values(f));
    vstd::seq_lib::lemma_flatten_concat(a.map_values(g), b.map_values(g));
}

/// Word `k` of a run takes bytes `4k .. 4k + 4` of its native image, in the
/// machine's byte order: the same order for every word and every run.
pub proof fn lemma_native_image_word(words: Seq<u32>, k: int)
    requires
        0 <= k < words.len(),
    ensures
        native_image(words).len() == 4 * words.len(),
        native_image(words).subrange(4 * k, 4 * k + 4) == (match endianness() {
            Endian::Little => le_bytes(words[k]),
            Endian::Big => be_bytes(words[k]),
        }),
    decreases words.len(),
{
    lemma_memory_image_len(native_image(words), words);
    let rest = words.drop_first();
    assert(words =~= seq![words[0]] + rest);
    lemma_image_of_concat(seq![words[0]], rest);
    let one = seq![words[0]];
    assert(one.map_values(|w: u32| le_bytes(w)) =~= seq![le_bytes(words[0])]);
    assert(one.map_values(|w: u32| be_bytes(w)) =~= seq![be_bytes(words[0])]);
    one.map_values(|w: u32| le_bytes(w)).lemma_flatten_one_element();
    one.map_values(|w: u32| be_bytes(w)).lemma_flatten_one_element();
    if k == 0 {
        assert(native_image(words).subrange(0, 4) =~= native_image(one));
    } else {
        lemma_native_image_word(rest, k - 1);
        assert(native_image(words).subrange(4 * k, 4 * k + 4) =~= native_image(rest).subrange(
            4 * (k - 1),
            4 * (k - 1) + 4,
        ));
    }
}

} // verus!
