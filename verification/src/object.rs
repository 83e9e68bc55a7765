//! The `.vec` object format: a mesh stored as big-endian 32-bit words.
//!
//! Layout, in bytes:
//! - 0..8: the centre of the mesh, two `f32` words (x, y);
//! - 8..12: the number `n` of indices;
//! - then `n` index words;
//! - then the number `m` of vertices;
//! - then `m` vertices of six words each: position (x, y), colour (r, g, b, a).
//!
//! Floating-point words are kept as their raw bit patterns (`u32`), which is
//! exactly what a big-endian `f32` read gives before the bits are reinterpreted.

use vstd::prelude::*;

verus! {

/// The value of four bytes read as a big-endian unsigned integer.
pub open spec fn be_value(b0: u8, b1: u8, b2: u8, b3: u8) -> int {
    b0 * 0x100_0000 + b1 * 0x1_0000 + b2 * 0x100 + b3
}

/// The big-endian word that starts at byte `at` of `s`.
pub open spec fn word_at(s: Seq<u8>, at: int) -> u32 {
    be_value(s[at], s[at + 1], s[at + 2], s[at + 3]) as u32
}

/// Reads the big-endian word at byte `at`.
pub fn read_be_u32(bytes: &[u8], at: usize) -> (word: u32)
    requires
        at + 4 <= bytes.len(),
    ensures
        word as int == be_value(bytes@[at as int], bytes@[at + 1], bytes@[at + 2], bytes@[at + 3]),
        word == word_at(bytes@, at as int),
{
    let b0: u32 = bytes[at] as u32;
    let b1: u32 = bytes[at + 1] as u32;
    let b2: u32 = bytes[at + 2] as u32;
    let b3: u32 = bytes[at + 3] as u32;
    b0 * 0x100_0000 + b1 * 0x1_0000 + b2 * 0x100 + b3
}

/// The number of indices the file declares.
pub open spec fn index_count(s: Seq<u8>) -> u32 {
    word_at(s, 8)
}

/// Byte at which the vertex count is stored: just after the index words.
pub open spec fn vertex_count_at(s: Seq<u8>) -> int {
    12 + 4 * index_count(s)
}

/// The number of vertices the file declares.
pub open spec fn vertex_count(s: Seq<u8>) -> u32 {
    word_at(s, vertex_count_at(s))
}

/// Byte at which the first vertex starts.
pub open spec fn vertices_at(s: Seq<u8>) -> int {
    vertex_count_at(s) + 4
}

/// Byte just past the last vertex.
pub open spec fn object_end(s: Seq<u8>) -> int {
    vertices_at(s) + 24 * vertex_count(s)
}

/// The bytes hold every part that the header announces; anything after the
/// last vertex is ignored.
pub open spec fn well_formed(s: Seq<u8>) -> bool {
    &&& 12 <= s.len()
    &&& vertices_at(s) <= s.len()
    &&& object_end(s) <= s.len()
}

/// `count` consecutive big-endian words of `s`, starting at byte `from`.
pub open spec fn words_from(s: Seq<u8>, from: int, count: nat) -> Seq<u32> {
    Seq::new(count, |k: int| word_at(s, from + 4 * k))
}

/// The six words of vertex `k`: position x, y, then colour r, g, b, a.
pub open spec fn vertex_words_at(s: Seq<u8>, k: int) -> Seq<u32> {
    words_from(s, vertices_at(s) + 24 * k, 6)
}

/// One mesh vertex, each `f32` component held as its bit pattern.
#[derive(Clone, Copy, Debug, PartialEq, Eq)]
pub struct VertexBits {
    pub position: [u32; 2],
    pub color: [u32; 4],
}

/// The six words of a vertex in storage order.
pub open spec fn vertex_words(v: VertexBits) -> Seq<u32> {
    v.position@ + v.color@
}

/// A decoded object: its centre, its index list and its vertices.
#[derive(Debug)]
pub struct ObjectData {
    pub center: [u32; 2],
    pub indices: Vec<u32>,
    pub vertices: Vec<VertexBits>,
}

impl ObjectData {
    /// `self` is what the bytes `s` describe.
    pub open spec fn decodes(&self, s: Seq<u8>) -> bool {
        &&& self.center@ == words_from(s, 0, 2)
        &&& self.indices@ == words_from(s, 12, index_count(s) as nat)
        &&& self.vertices@.len() == vertex_count(s)
        &&& forall|k: int|
            0 <= k < self.vertices@.len() ==> vertex_words(#[trigger] self.vertices@[k])
                == vertex_words_at(s, k)
    }
}

/// Whether `bytes` hold a complete object.
pub fn object_is_well_formed(bytes: &[u8]) -> (ok: bool)
    ensures
        ok == well_formed(bytes@),
        ok == (12 <= bytes@.len() && 16 + 4 * word_at(bytes@, 8) + 24 * word_at(
            bytes@,
            12 + 4 * word_at(bytes@, 8),
        ) <= bytes@.len()),
{
    proof {
        lemma_well_formed_is_a_length_check(bytes@);
    }
    let len: u64 = bytes.len() as u64;
    if bytes.len() < 12 {
        return false;
    }
    let n: u64 = read_be_u32(bytes, 8) as u64;
    let count_at: u64 = 12 + 4 * n;
    if len < count_at + 4 {
        return false;
    }
    let m: u64 = read_be_u32(bytes, count_at as usize) as u64;
    count_at + 4 + 24 * m <= len
}

/// Reads the vertex that starts at byte `at`.
fn read_vertex(bytes: &[u8], at: usize) -> (v: VertexBits)
    requires
        at + 24 <= bytes.len(),
    ensures
        vertex_words(v) == words_from(bytes@, at as int, 6),
{
    let x = read_be_u32(bytes, at);
    let y = read_be_u32(bytes, at + 4);
    let r = read_be_u32(bytes, at + 8);
    let g = read_be_u32(bytes, at + 12);
    let b = read_be_u32(bytes, at + 16);
    let a = read_be_u32(bytes, at + 20);
    let v = VertexBits { position: [x, y], color: [r, g, b, a] };
    assert(vertex_words(v) =~= words_from(bytes@, at as int, 6));
    v
}


/// Decodes an object from its bytes.
///
/// The bytes must be well formed (see [`object_is_well_formed`]); bytes past
/// the last vertex are ignored.
pub fn parse_object(bytes: &[u8]) -> (obj: ObjectData)
    requires
        well_formed(bytes@),
    ensures
        obj.decodes(bytes@),
        obj.center[0] == word_at(bytes@, 0),
        obj.center[1] == word_at(bytes@, 4),
        obj.indices@.len() == word_at(bytes@, 8),
        forall|k: int| 0 <= k < obj.indices@.len() ==> #[trigger] obj.indices@[k] == word_at(bytes@, 12 + 4 * k),
        obj.vertices@.len() == word_at(bytes@, 12 + 4 * word_at(bytes@, 8)),
        forall|k: int, j: int|
            0 <= k < obj.vertices@.len() && 0 <= j < 6 ==> #[trigger] vertex_words(obj.vertices@[k])[j]
                == word_at(bytes@, 16 + 4 * word_at(bytes@, 8) + 24 * k + 4 * j),
{
    let ghost s = bytes@;
    let len: usize = bytes.len();
    let cx = read_be_u32(bytes, 0);
    let cy = read_be_u32(bytes, 4);
    let center: [u32; 2] = [cx, cy];
    assert(center@ =~= words_from(s, 0, 2));

    let n: usize = read_be_u32(bytes, 8) as usize;
    let mut indices: Vec<u32> = Vec::new();
    let mut k: usize = 0;
    while k < n
        invariant
            s == bytes@,
            s.len() == len,
            well_formed(s),
            n == index_count(s),
            k <= n,
            indices@ =~= words_from(s, 12, k as nat),
        decreases n - k,
    {
        let word = read_be_u32(bytes, 12 + 4 * k);
        indices.push(word);
        k = k + 1;
        assert(indices@ =~= words_from(s, 12, k as nat));
    }

    let count_at: usize = 12 + 4 * n;
    let m: usize = read_be_u32(bytes, count_at) as usize;
    let first: usize = count_at + 4;
    let mut vertices: Vec<VertexBits> = Vec::new();
    let mut j: usize = 0;
    while j < m
        invariant
            s == bytes@,
            s.len() == len,
            well_formed(s),
            m == vertex_count(s),
            first == vertices_at(s),
            j <= m,
            vertices@.len() == j,
            forall|i: int| 0 <= i < j ==> vertex_words(#[trigger] vertices@[i]) == vertex_words_at(s, i),
        decreases m - j,
    {
        let v = read_vertex(bytes, first + 24 * j);
        vertices.push(v);
        j = j + 1;
    }
    let obj = ObjectData { center, indices, vertices };
    proof {
        lemma_decoded_object_is_file_words(s, obj);
    }
    obj
}


/// Bytes after the last vertex play no part: appending anything to a well
/// formed object leaves it well formed and describing the same object.
pub proof fn lemma_trailing_bytes_ignored(s: Seq<u8>, extra: Seq<u8>, obj: ObjectData)
    requires
        well_formed(s),
    ensures
        well_formed(s + extra),
        obj.decodes(s) <==> obj.decodes(s + extra),
{
    let t = s + extra;
    assert(forall|at: int| 0 <= at && at + 4 <= s.len() ==> #[trigger] word_at(t, at) == word_at(s, at)) by {
        assert forall|at: int| 0 <= at && at + 4 <= s.len() implies #[trigger] word_at(t, at) == word_at(s, at) by {
            assert(t[at] == s[at] && t[at + 1] == s[at + 1] && t[at + 2] == s[at + 2] && t[at + 3] == s[at + 3]);
        }
    }
    assert(word_at(t, 8) == word_at(s, 8));
    assert(word_at(t, vertex_count_at(s)) == word_at(s, vertex_count_at(s)));
    assert(words_from(t, 0, 2) =~= words_from(s, 0, 2));
    assert(words_from(t, 12, index_count(s) as nat) =~= words_from(s, 12, index_count(s) as nat));
    assert forall|k: int| 0 <= k < vertex_count(s) implies #[trigger] vertex_words_at(t, k) == vertex_words_at(s, k) by {
        assert(vertex_words_at(t, k) =~= vertex_words_at(s, k));
    }
}


/// A file is complete exactly when it is long enough for the parts its two
/// counts announce: 16 header bytes, 4 per index and 24 per vertex. Nothing
/// else matters: not the index values, nor how the two counts compare.
pub proof fn lemma_well_formed_is_a_length_check(s: Seq<u8>)
    ensures
        well_formed(s) <==> (12 <= s.len() && 16 + 4 * word_at(s, 8) + 24 * word_at(
            s,
            12 + 4 * word_at(s, 8),
        ) <= s.len()),
{
}

/// What a decoding holds, word by word: the centre is the first two words,
/// the index list has as many entries as the index count says and its k-th
/// entry is the k-th word after the count, the vertex list has as many
/// entries as the vertex count says and vertex k is the six words at
/// `16 + 4 * n + 24 * k`.
pub proof fn lemma_decoded_object_is_file_words(s: Seq<u8>, obj: ObjectData)
    requires
        obj.decodes(s),
    ensures
        obj.center[0] == word_at(s, 0),
        obj.center[1] == word_at(s, 4),
        obj.indices@.len() == word_at(s, 8),
        forall|k: int| 0 <= k < obj.indices@.len() ==> #[trigger] obj.indices@[k] == word_at(s, 12 + 4 * k),
        obj.vertices@.len() == word_at(s, 12 + 4 * word_at(s, 8)),
        forall|k: int, j: int|
            0 <= k < obj.vertices@.len() && 0 <= j < 6 ==> #[trigger] vertex_words(obj.vertices@[k])[j]
                == word_at(s, 16 + 4 * word_at(s, 8) + 24 * k + 4 * j),
{
    assert(obj.center@[0] == word_at(s, 0));
    assert(obj.center@[1] == word_at(s, 4));
    assert forall|k: int, j: int|
        0 <= k < obj.vertices@.len() && 0 <= j < 6 implies #[trigger] vertex_words(obj.vertices@[k])[j]
            == word_at(s, 16 + 4 * word_at(s, 8) + 24 * k + 4 * j) by {
        assert(vertex_words(obj.vertices@[k]) == vertex_words_at(s, k));
    }
}

} // verus!
