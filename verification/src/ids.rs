//! Snake identifiers: UUIDs held as their sixteen bytes, and the mixed-endian
//! byte order in which they travel.
use vstd::prelude::*;

verus! {

/// The identifier of a snake: the sixteen bytes of a UUID, in the UUID's own
/// (big-endian) order.
#[derive(Debug, PartialEq, Eq, Clone, Copy)]
pub struct SnakeId {
    pub bytes: [u8; 16],
}

impl View for SnakeId {
    type V = Seq<u8>;

    open spec fn view(&self) -> Seq<u8> {
        self.bytes@
    }
}

/// Where byte `i` of the little-endian form of a UUID comes from: the first
/// three fields (4, 2 and 2 bytes) are reversed, the last eight stay.
pub open spec fn le_source(i: int) -> int {
    if i < 4 {
        3 - i
    } else if i < 6 {
        9 - i
    } else if i < 8 {
        13 - i
    } else {
        i
    }
}

/// The little-endian form of the sixteen UUID bytes `b`; the same reordering
/// also turns the little-endian form back into the UUID's own order.
pub open spec fn uuid_le_order(b: Seq<u8>) -> Seq<u8> {
    Seq::new(16, |i: int| b[le_source(i)])
}

/// Reordering twice gives the bytes back.
pub proof fn lemma_le_order_involution(b: Seq<u8>)
    requires
        b.len() == 16,
    ensures
        uuid_le_order(uuid_le_order(b)) == b,
{
    assert(uuid_le_order(uuid_le_order(b)) =~= b);
}

/// Calls `uuid::Uuid::from_bytes` on `bytes`, then `Uuid::to_bytes_le`. The
/// uuid crate's source builds the result as `[b3, b2, b1, b0, b5, b4, b7, b6,
/// b8 ..= b15]`, which is what the contract states.
#[verifier::external_body]
fn uuid_to_bytes_le(bytes: [u8; 16]) -> (r: [u8; 16])
    ensures
        r@ == uuid_le_order(bytes@),
{
    uuid::Uuid::from_bytes(bytes).to_bytes_le()
}

/// Calls `uuid::Uuid::from_bytes_le` on `b`, then `Uuid::as_bytes`. The uuid
/// crate's source builds the UUID as `[b3, b2, b1, b0, b5, b4, b7, b6,
/// b8 ..= b15]`, which is what the contract states.
#[verifier::external_body]
fn uuid_from_bytes_le(b: [u8; 16]) -> (r: [u8; 16])
    ensures
        r@ == uuid_le_order(b@),
{
    *uuid::Uuid::from_bytes_le(b).as_bytes()
}

/// Calls `uuid::Uuid::new_v4`, then `Uuid::as_bytes`. The bytes are random;
/// the contract states only what the uuid crate's source fixes in every
/// outcome: the version nibble (high half of byte 6) is 4 and the variant
/// bits (top two of byte 8) are `10`.
#[verifier::external_body]
fn uuid_new_v4() -> (r: [u8; 16])
    ensures
        r@[6] / 16 == 4,
        r@[8] / 64 == 2,
{
    *uuid::Uuid::new_v4().as_bytes()
}

impl SnakeId {
    /// A fresh random (version 4) identifier.
    pub fn random() -> (id: SnakeId)
        ensures
            id@.len() == 16,
            id@[6] / 16 == 4,
            id@[8] / 64 == 2,
    {
        SnakeId { bytes: uuid_new_v4() }
    }

    /// The identifier in the byte order in which it is sent.
    pub fn to_bytes_le(&self) -> (b: [u8; 16])
        ensures
            b@ == uuid_le_order(self@),
    {
        uuid_to_bytes_le(self.bytes)
    }

    /// The identifier whose sent form is `b`.
    pub fn from_bytes_le(b: [u8; 16]) -> (id: SnakeId)
        ensures
            id@ == uuid_le_order(b@),
    {
        SnakeId { bytes: uuid_from_bytes_le(b) }
    }

    /// Whether two identifiers are the same.
    pub fn same_as(&self, other: &SnakeId) -> (r: bool)
        ensures
            r == (self@ == other@),
    {
        let mut i: usize = 0;
        while i < 16
            invariant
                i <= 16,
                self@.len() == 16,
                other@.len() == 16,
                forall|j: int| 0 <= j < i ==> self@[j] == other@[j],
            decreases 16 - i,
        {
            if self.bytes[i] != other.bytes[i] {
                return false;
            }
            i = i + 1;
        }
        assert(self@ =~= other@);
        true
    }

    /// Appends the identifier, in the byte order in which it is sent, to `out`.
    pub fn write_le_to(&self, out: &mut Vec<u8>)
        ensures
            final(out)@ == old(out)@ + uuid_le_order(self@),
    {
        let b = self.to_bytes_le();
        let mut i: usize = 0;
        while i < 16
            invariant
                i <= 16,
                b@.len() == 16,
                out@ == old(out)@ + b@.subrange(0, i as int),
            decreases 16 - i,
        {
            out.push(b[i]);
            i = i + 1;
            assert(out@ =~= old(out)@ + b@.subrange(0, i as int));
        }
        assert(b@.subrange(0, 16) =~= b@);
    }

    /// Reads the identifier whose sent form is at `at .. at + 16` of `b`.
    pub fn read_le_at(b: &[u8], at: usize) -> (id: SnakeId)
        requires
            at + 16 <= b.len(),
        ensures
            id@ == uuid_le_order(b@.subrange(at as int, at + 16)),
    {
        let raw: [u8; 16] = [
            b[at], b[at + 1], b[at + 2], b[at + 3], b[at + 4], b[at + 5], b[at + 6], b[at + 7],
            b[at + 8], b[at + 9], b[at + 10], b[at + 11], b[at + 12], b[at + 13], b[at + 14],
            b[at + 15],
        ];
        assert(raw@ =~= b@.subrange(at as int, at + 16));
        SnakeId::from_bytes_le(raw)
    }
}

} // verus!
