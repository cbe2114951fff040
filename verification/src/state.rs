use vstd::prelude::*;
use vstd::array::ArrayAdditionalExecFns;
use vstd::bytes::{lemma_auto_spec_u64_to_from_le_bytes, spec_u64_from_le_bytes, spec_u64_to_le_bytes, u64_from_le_bytes, u64_to_le_bytes};
use vstd::slice::slice_subrange;
use crate::ids::AccountId;

verus! {

/// The durable escrow record: which assets, how much of mintB the maker
/// wants, and the disambiguator needed to reconstruct the record's derived
/// authority later. One record exists per active escrow; its address is
/// derived from the maker and the seed nonce.
#[derive(Clone, Copy, PartialEq, Eq, Debug)]
pub struct Escrow {
    /// Maker-chosen nonce; with the maker's identity it determines the
    /// record's address.
    pub seed: u64,
    /// The asset locked in the vault.
    pub mint_a: AccountId,
    /// The asset the maker wants in return.
    pub mint_b: AccountId,
    /// The exact amount of mintB a taker must pay.
    pub receive: u64,
    /// Disambiguator byte of the address derivation, stored so later
    /// operations can recompute the derived authority without search.
    pub bump: u8,
}

/// The fixed tag that prefixes every persisted record and identifies its
/// type: the first eight bytes of the SHA-256 digest of "account:Escrow".
pub open spec fn record_tag() -> Seq<u8> {
    seq![31u8, 213u8, 123u8, 187u8, 186u8, 22u8, 218u8, 155u8]
}

/// The persisted layout of a record: tag, seed (little endian), mintA,
/// mintB, receive (little endian), bump. Fixed size, no variable-length
/// fields.
pub open spec fn serialized(e: Escrow) -> Seq<u8> {
    record_tag() + spec_u64_to_le_bytes(e.seed) + e.mint_a@ + e.mint_b@ + spec_u64_to_le_bytes(
        e.receive,
    ) + seq![e.bump]
}

/// Appends an identifier's 32 bytes to a byte vector.
fn append_id(v: &mut Vec<u8>, id: &AccountId)
    ensures
        final(v)@ == old(v)@ + id@,
{
    let mut i: usize = 0;
    while i < 32
        invariant
            0 <= i <= 32,
            v@ == old(v)@ + id@.subrange(0, i as int),
        decreases 32 - i,
    {
        v.push(id.bytes[i]);
        proof {
            assert(v@ =~= old(v)@ + id@.subrange(0, i as int + 1));
        }
        i += 1;
    }
    proof {
        assert(old(v)@ + id@.subrange(0, 32) =~= old(v)@ + id@);
    }
}

/// Reads an identifier's 32 bytes at an offset of a byte vector.
fn read_id(b: &Vec<u8>, off: usize) -> (r: AccountId)
    requires
        off + 32 <= b@.len(),
    ensures
        r@ == b@.subrange(off as int, off as int + 32),
{
    let n = b.len();
    let mut bytes = [0u8; 32];
    let mut i: usize = 0;
    while i < 32
        invariant
            0 <= i <= 32,
            off + 32 <= n,
            n == b@.len(),
            forall|j: int| 0 <= j < i ==> bytes@[j] == b@[off + j],
        decreases 32 - i,
    {
        bytes[i] = b[off + i];
        i += 1;
    }
    let r = AccountId { bytes };
    proof {
        assert(r@ =~= b@.subrange(off as int, off as int + 32));
    }
    r
}

/// Serializes a record into its persisted layout: exactly 89 bytes.
pub fn serialize_escrow(e: &Escrow) -> (r: Vec<u8>)
    ensures
        r@ == serialized(*e),
        r@.len() == 89,
{
    proof {
        lemma_auto_spec_u64_to_from_le_bytes();
    }
    let mut v: Vec<u8> = Vec::new();
    v.push(31u8);
    v.push(213u8);
    v.push(123u8);
    v.push(187u8);
    v.push(186u8);
    v.push(22u8);
    v.push(218u8);
    v.push(155u8);
    proof {
        assert(v@ =~= record_tag());
    }
    let mut sb = u64_to_le_bytes(e.seed);
    v.append(&mut sb);
    append_id(&mut v, &e.mint_a);
    append_id(&mut v, &e.mint_b);
    let mut rb = u64_to_le_bytes(e.receive);
    v.append(&mut rb);
    v.push(e.bump);
    proof {
        assert(v@ =~= serialized(*e));
    }
    v
}

/// Parses a persisted record. Returns the record exactly when the bytes are
/// a record's serialization; every malformed input is rejected.
pub fn deserialize_escrow(b: &Vec<u8>) -> (r: Option<Escrow>)
    ensures
        match r {
            Some(e) => b@ == serialized(e),
            None => forall|e: Escrow| b@ != serialized(e),
        },
{
    proof {
        lemma_auto_spec_u64_to_from_le_bytes();
        assert forall|e: Escrow| serialized(e).len() == 89 by {}
    }
    if b.len() != 89 {
        return None;
    }
    let tag: [u8; 8] = [31u8, 213u8, 123u8, 187u8, 186u8, 22u8, 218u8, 155u8];
    let mut i: usize = 0;
    while i < 8
        invariant
            0 <= i <= 8,
            b@.len() == 89,
            tag@ == record_tag(),
            forall|j: int| 0 <= j < i ==> b@[j] == record_tag()[j],
        decreases 8 - i,
    {
        if b[i] != tag[i] {
            proof {
                assert forall|e: Escrow| b@ != serialized(e) by {
                    assert(serialized(e)[i as int] == record_tag()[i as int]);
                }
            }
            return None;
        }
        i += 1;
    }
    let seed = u64_from_le_bytes(slice_subrange(b.as_slice(), 8, 16));
    let mint_a = read_id(b, 16);
    let mint_b = read_id(b, 48);
    let receive = u64_from_le_bytes(slice_subrange(b.as_slice(), 80, 88));
    let bump = b[88];
    let e = Escrow { seed, mint_a, mint_b, receive, bump };
    proof {
        assert(spec_u64_to_le_bytes(e.seed) =~= b@.subrange(8, 16));
        assert(spec_u64_to_le_bytes(e.receive) =~= b@.subrange(80, 88));
        assert(b@ =~= serialized(e));
    }
    Some(e)
}

/// Two records that serialize to the same bytes are the same record: the
/// persisted layout loses nothing, so serialize followed by deserialize
/// gives the record back.
pub proof fn lemma_serialized_injective(e1: Escrow, e2: Escrow)
    requires
        serialized(e1) == serialized(e2),
    ensures
        e1 == e2,
{
    lemma_auto_spec_u64_to_from_le_bytes();
    let s1 = serialized(e1);
    let s2 = serialized(e2);
    assert(spec_u64_to_le_bytes(e1.seed) =~= s1.subrange(8, 16));
    assert(spec_u64_to_le_bytes(e2.seed) =~= s2.subrange(8, 16));
    assert(e1.seed == e2.seed);
    assert(e1.mint_a@ =~= s1.subrange(16, 48));
    assert(e2.mint_a@ =~= s2.subrange(16, 48));
    assert(e1.mint_a.bytes =~= e2.mint_a.bytes);
    assert(e1.mint_b@ =~= s1.subrange(48, 80));
    assert(e2.mint_b@ =~= s2.subrange(48, 80));
    assert(e1.mint_b.bytes =~= e2.mint_b.bytes);
    assert(spec_u64_to_le_bytes(e1.receive) =~= s1.subrange(80, 88));
    assert(spec_u64_to_le_bytes(e2.receive) =~= s2.subrange(80, 88));
    assert(e1.receive == e2.receive);
    assert(e1.bump == s1[88]);
    assert(e2.bump == s2[88]);
}

} // verus!
