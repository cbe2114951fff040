use vstd::prelude::*;
use crate::ids::AccountId;
use anchor_lang::solana_program::pubkey::Pubkey;
use anchor_spl::associated_token::get_associated_token_address;

verus! {

/// The namespace tag under which escrow record addresses are derived:
/// the bytes of "escrow".
pub open spec fn escrow_tag() -> Seq<u8> {
    seq![101u8, 115u8, 99u8, 114u8, 111u8, 119u8]
}

/// The executable namespace tag; its view is `escrow_tag()`.
pub fn escrow_tag_bytes() -> (v: Vec<u8>)
    ensures
        v@ == escrow_tag(),
{
    let mut v: Vec<u8> = Vec::new();
    v.push(101u8);
    v.push(115u8);
    v.push(99u8);
    v.push(114u8);
    v.push(111u8);
    v.push(119u8);
    proof {
        assert(v@ =~= escrow_tag());
    }
    v
}

/// What `Pubkey::try_find_program_address` returns for the seed list
/// `[tag, id, seed as eight little-endian bytes]` under `program`:
/// a deterministic function of those arguments alone.
pub uninterp spec fn pda_of(tag: Seq<u8>, id: AccountId, seed: u64, program: AccountId) -> Option<(AccountId, u8)>;

/// What `get_associated_token_address` returns for a wallet and a mint:
/// a deterministic function of those two addresses alone.
pub uninterp spec fn ata_of(wallet: AccountId, mint: AccountId) -> AccountId;

/// Relies on `Pubkey::try_find_program_address` (reached through
/// anchor_lang's `solana_program` re-export): the returned address and bump
/// are a deterministic function of the seed list and the program id.
#[verifier::external_body]
pub(crate) fn find_program_address(
    tag: &Vec<u8>,
    id: &AccountId,
    seed: u64,
    program: &AccountId,
) -> (r: Option<(AccountId, u8)>)
    ensures
        r == pda_of(tag@, *id, seed, *program),
{
    let seed_bytes = seed.to_le_bytes();
    let seeds: [&[u8]; 3] = [tag.as_slice(), id.bytes.as_slice(), seed_bytes.as_slice()];
    let pid = Pubkey::new_from_array(program.bytes);
    Pubkey::try_find_program_address(&seeds, &pid)
        .map(|(a, b)| (AccountId { bytes: a.to_bytes() }, b))
}

/// Relies on anchor_spl's `get_associated_token_address`: the associated
/// holding account's address is a deterministic function of the wallet and
/// mint addresses.
#[verifier::external_body]
pub(crate) fn find_holding_address(wallet: &AccountId, mint: &AccountId) -> (r: AccountId)
    ensures
        r == ata_of(*wallet, *mint),
{
    let w = Pubkey::new_from_array(wallet.bytes);
    let m = Pubkey::new_from_array(mint.bytes);
    AccountId { bytes: get_associated_token_address(&w, &m).to_bytes() }
}

/// Resolves the escrow record address and disambiguator that a maker and a
/// seed nonce determine under the given program.
pub fn escrow_address(maker: &AccountId, seed: u64, program: &AccountId) -> (r: Option<(AccountId, u8)>)
    ensures
        r == pda_of(escrow_tag(), *maker, seed, *program),
{
    let tag = escrow_tag_bytes();
    find_program_address(&tag, maker, seed, program)
}

/// Resolves the ledger account that holds assets of `mint` on behalf of
/// `owner` (for a vault, `owner` is the escrow record's derived address).
pub fn holding_address(owner: &AccountId, mint: &AccountId) -> (r: AccountId)
    ensures
        r == ata_of(*owner, *mint),
{
    find_holding_address(owner, mint)
}

} // verus!
