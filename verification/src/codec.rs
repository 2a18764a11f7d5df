//! Little-endian encoding of `i32` values, as used by every part of the
//! game's byte format.
use vstd::prelude::*;

verus! {

/// The four little-endian bytes of `v` (two's complement).
pub open spec fn i32_le_bytes(v: i32) -> Seq<u8> {
    let u = v as u32;
    seq![(u % 256) as u8, ((u / 256) % 256) as u8, ((u / 65536) % 256) as u8, (u / 16777216) as u8]
}

/// The `i32` whose little-endian bytes are `b0, b1, b2, b3`.
pub open spec fn i32_from_le(b0: u8, b1: u8, b2: u8, b3: u8) -> i32 {
    (b0 + b1 * 256 + b2 * 65536 + b3 * 16777216) as u32 as i32
}

/// The `i32` stored little-endian at `at .. at + 4` of `b`.
pub open spec fn read_i32(b: Seq<u8>, at: int) -> i32 {
    i32_from_le(b[at], b[at + 1], b[at + 2], b[at + 3])
}

/// Reading back the bytes of `v` gives `v`.
pub proof fn lemma_i32_roundtrip(v: i32)
    ensures
        ({
            let b = i32_le_bytes(v);
            i32_from_le(b[0], b[1], b[2], b[3]) == v
        }),
{
    let u = v as u32;
    assert((u % 256) as u8 + ((u / 256) % 256) as u8 * 256 + ((u / 65536) % 256) as u8 * 65536
        + (u / 16777216) as u8 * 16777216 == u) by (bit_vector);
    assert((v as u32) as i32 == v) by (bit_vector);
}

/// Reading an `i32` at `p.len()` from `p + i32_le_bytes(v) + s` gives `v`.
pub proof fn lemma_read_i32_at(p: Seq<u8>, v: i32, s: Seq<u8>)
    ensures
        read_i32(p + i32_le_bytes(v) + s, p.len() as int) == v,
{
    lemma_i32_roundtrip(v);
    let b = p + i32_le_bytes(v) + s;
    let e = i32_le_bytes(v);
    assert(b[p.len() as int] == e[0]);
    assert(b[p.len() as int + 1] == e[1]);
    assert(b[p.len() as int + 2] == e[2]);
    assert(b[p.len() as int + 3] == e[3]);
}

/// Whether `b` begins with the bytes `q`.
pub open spec fn starts_with(b: Seq<u8>, q: Seq<u8>) -> bool {
    &&& q.len() <= b.len()
    &&& forall|i: int| 0 <= i < q.len() ==> #[trigger] b[i] == q[i]
}

/// A byte string begins with any of its left parts.
pub proof fn lemma_starts_with_add(x: Seq<u8>, y: Seq<u8>)
    ensures
        starts_with(x + y, x),
{
}

/// Beginning with is transitive.
pub proof fn lemma_starts_with_trans(a: Seq<u8>, b: Seq<u8>, c: Seq<u8>)
    requires
        starts_with(a, b),
        starts_with(b, c),
    ensures
        starts_with(a, c),
{
    assert forall|i: int| 0 <= i < c.len() implies #[trigger] a[i] == c[i] by {
        assert(a[i] == b[i]);
    }
}

/// An `i32` inside a leading part reads the same from the whole.
pub proof fn lemma_read_i32_prefix(b: Seq<u8>, q: Seq<u8>, at: int)
    requires
        starts_with(b, q),
        0 <= at,
        at + 4 <= q.len(),
    ensures
        read_i32(b, at) == read_i32(q, at),
{
    assert(b[at] == q[at]);
    assert(b[at + 1] == q[at + 1]);
    assert(b[at + 2] == q[at + 2]);
    assert(b[at + 3] == q[at + 3]);
}

/// Appends the little-endian bytes of `v` to `out`.
pub fn push_i32_le(out: &mut Vec<u8>, v: i32)
    ensures
        final(out)@ == old(out)@ + i32_le_bytes(v),
{
    let u = v as u32;
    out.push((u % 256) as u8);
    out.push(((u / 256) % 256) as u8);
    out.push(((u / 65536) % 256) as u8);
    out.push((u / 16777216) as u8);
    assert(out@ =~= old(out)@ + i32_le_bytes(v));
}

/// The `i32` stored little-endian at `at .. at + 4` of `b`.
pub fn read_i32_le(b: &[u8], at: usize) -> (v: i32)
    requires
        at + 4 <= b@.len(),
    ensures
        v == read_i32(b@, at as int),
{
    let b0 = b[at] as u32;
    let b1 = b[at + 1] as u32;
    let b2 = b[at + 2] as u32;
    let b3 = b[at + 3] as u32;
    (b0 + b1 * 256 + b2 * 65536 + b3 * 16777216) as i32
}

} // verus!
