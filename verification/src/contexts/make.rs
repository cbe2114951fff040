use vstd::prelude::*;
use crate::authority::{ata_of, escrow_address, escrow_tag, find_holding_address, pda_of};
use crate::error::EscrowError;
use crate::ids::AccountId;
use crate::ledger::{transfer_check, transferred, EscrowAccount, Ledger, TokenAccount};
use crate::state::Escrow;

verus! {

/// The resolved accounts of one Make operation: the maker (its signer), the
/// two mints, the maker's mintA holding account, and the record and vault
/// addresses the operation creates.
pub struct Make {
    pub maker: AccountId,
    pub mint_a: AccountId,
    pub mint_b: AccountId,
    pub maker_ata_a: AccountId,
    pub escrow: AccountId,
    pub vault: AccountId,
    pub bump: u8,
}

/// Which error, if any, Make raises, in the order the operation checks:
/// a failed derivation, a live record under the same (maker, seed), a vault
/// address already in use, a missing or mismatched maker holding account,
/// and finally whatever the asset ledger says of the deposit transfer.
pub open spec fn make_check(
    l: Ledger,
    maker: AccountId,
    mint_a: AccountId,
    mint_b: AccountId,
    seed: u64,
    deposit: u64,
) -> Option<EscrowError> {
    match pda_of(escrow_tag(), maker, seed, l.program_id) {
        None => Some(EscrowError::ConstraintViolation),
        Some((ea, bump)) => {
            let vault = ata_of(ea, mint_a);
            let m_a = ata_of(maker, mint_a);
            let m = l.token_map();
            if l.record_map().contains_key(ea) {
                Some(EscrowError::DuplicateSeed)
            } else if m.contains_key(vault) {
                Some(EscrowError::ConstraintViolation)
            } else if !m.contains_key(m_a) || m[m_a].mint != mint_a || m[m_a].owner != maker {
                Some(EscrowError::ConstraintViolation)
            } else {
                transfer_check(
                    m.insert(vault, TokenAccount { addr: vault, mint: mint_a, owner: ea, amount: 0 }),
                    m_a,
                    vault,
                    maker,
                    deposit,
                )
            }
        },
    }
}

/// The state a successful Make leaves behind: the vault exists, holds mintA
/// and exactly the deposit, is owned by the record's derived address, and
/// the record stores (seed, mintA, mintB, receive, bump) for the maker.
pub open spec fn make_post(
    pre: Ledger,
    post: Ledger,
    maker: AccountId,
    mint_a: AccountId,
    mint_b: AccountId,
    seed: u64,
    deposit: u64,
    receive: u64,
) -> bool {
    match pda_of(escrow_tag(), maker, seed, pre.program_id) {
        None => false,
        Some((ea, bump)) => {
            let vault = ata_of(ea, mint_a);
            let m_a = ata_of(maker, mint_a);
            let m1 = pre.token_map().insert(
                vault,
                TokenAccount { addr: vault, mint: mint_a, owner: ea, amount: 0 },
            );
            &&& post.token_map() == transferred(m1, m_a, vault, deposit)
            &&& post.record_map() == pre.record_map().insert(
                ea,
                EscrowAccount {
                    addr: ea,
                    maker,
                    record: Escrow { seed, mint_a, mint_b, receive, bump },
                },
            )
            &&& post.program_id == pre.program_id
        },
    }
}

impl Make {
    /// Writes the escrow record this operation creates, at its derived
    /// address. The caller has already checked that the address is free.
    pub fn save_escrow(&self, l: &mut Ledger, seed: u64, receive: u64) -> (r: Result<
        (),
        EscrowError,
    >)
        requires
            old(l).addrs_unique(),
            !old(l).record_map().contains_key(self.escrow),
        ensures
            final(l).addrs_unique(),
            final(l).tokens@ == old(l).tokens@,
            final(l).program_id == old(l).program_id,
            final(l).record_map() == old(l).record_map().insert(
                self.escrow,
                EscrowAccount {
                    addr: self.escrow,
                    maker: self.maker,
                    record: Escrow {
                        seed,
                        mint_a: self.mint_a,
                        mint_b: self.mint_b,
                        receive,
                        bump: self.bump,
                    },
                },
            ),
            r is Ok,
    {
        l.push_record(
            EscrowAccount {
                addr: self.escrow,
                maker: self.maker,
                record: Escrow {
                    seed,
                    mint_a: self.mint_a,
                    mint_b: self.mint_b,
                    receive,
                    bump: self.bump,
                },
            },
        );
        Ok(())
    }

    /// Moves the maker's deposit from their mintA account into the vault,
    /// authorized by the maker's own signature.
    pub fn deposit(&self, l: &mut Ledger, amount: u64) -> (r: Result<(), EscrowError>)
        requires
            old(l).addrs_unique(),
        ensures
            final(l).addrs_unique(),
            final(l).records@ == old(l).records@,
            final(l).program_id == old(l).program_id,
            match r {
                Ok(()) => transfer_check(
                    old(l).token_map(),
                    self.maker_ata_a,
                    self.vault,
                    self.maker,
                    amount,
                ) is None && final(l).token_map() == transferred(
                    old(l).token_map(),
                    self.maker_ata_a,
                    self.vault,
                    amount,
                ),
                Err(e) => transfer_check(
                    old(l).token_map(),
                    self.maker_ata_a,
                    self.vault,
                    self.maker,
                    amount,
                ) == Some(e) && final(l).tokens@ == old(l).tokens@,
            },
    {
        l.transfer(&self.maker_ata_a, &self.vault, &self.maker, amount)
    }
}

/// Creates the escrow: derives the record address from (maker, seed),
/// creates the record and the vault, and moves `deposit` of mintA from the
/// maker into the vault. All or nothing; fails exactly as `make_check` says.
pub fn make(
    l: &mut Ledger,
    maker: AccountId,
    mint_a: AccountId,
    mint_b: AccountId,
    seed: u64,
    deposit: u64,
    receive: u64,
) -> (r: Result<(), EscrowError>)
    requires
        old(l).wf(),
    ensures
        final(l).wf(),
        match r {
            Ok(()) => make_check(*old(l), maker, mint_a, mint_b, seed, deposit) is None
                && make_post(*old(l), *final(l), maker, mint_a, mint_b, seed, deposit, receive),
            Err(e) => make_check(*old(l), maker, mint_a, mint_b, seed, deposit) == Some(e)
                && final(l).tokens@ == old(l).tokens@ && final(l).records@ == old(l).records@
                && final(l).program_id == old(l).program_id,
        },
{
    let pda = escrow_address(&maker, seed, &l.program_id);
    if pda.is_none() {
        return Err(EscrowError::ConstraintViolation);
    }
    let (ea, bump) = pda.unwrap();
    if l.get_record(&ea).is_some() {
        return Err(EscrowError::DuplicateSeed);
    }
    let vault = find_holding_address(&ea, &mint_a);
    if l.get_token(&vault).is_some() {
        return Err(EscrowError::ConstraintViolation);
    }
    let m_a = find_holding_address(&maker, &mint_a);
    let mao = l.get_token(&m_a);
    if mao.is_none() {
        return Err(EscrowError::ConstraintViolation);
    }
    let ma_acc = mao.unwrap();
    if !ma_acc.mint.id_eq(&mint_a) || !ma_acc.owner.id_eq(&maker) {
        return Err(EscrowError::ConstraintViolation);
    }
    let ghost m1 = l.token_map().insert(
        vault,
        TokenAccount { addr: vault, mint: mint_a, owner: ea, amount: 0 },
    );
    proof {
        assert(m_a != vault);
        assert(m1[m_a] == l.token_map()[m_a]);
        assert(m1[vault].amount == 0);
    }
    if ma_acc.amount < deposit {
        return Err(EscrowError::InsufficientFunds);
    }
    // every check has passed: create the vault, move the deposit, write the
    // record
    let ctx = Make { maker, mint_a, mint_b, maker_ata_a: m_a, escrow: ea, vault, bump };
    l.push_token(TokenAccount { addr: vault, mint: mint_a, owner: ea, amount: 0 });
    let dep = ctx.deposit(l, deposit);
    if dep.is_err() {
        proof {
            assert(false);
        }
        return dep;
    }
    let sav = ctx.save_escrow(l, seed, receive);
    if sav.is_err() {
        proof {
            assert(false);
        }
        return sav;
    }
    proof {
        let post = *l;
        let pre = *old(l);
        assert(post.record_map() == pre.record_map().insert(
            ea,
            EscrowAccount {
                addr: ea,
                maker,
                record: Escrow { seed, mint_a, mint_b, receive, bump },
            },
        ));
        assert forall|a: AccountId| #[trigger] post.record_map().contains_key(a) implies {
            let e = post.record_map()[a];
            e.addr == a && pda_of(escrow_tag(), e.maker, e.record.seed, post.program_id) == Some(
                (e.addr, e.record.bump),
            )
        } by {
            if a != ea {
                assert(pre.record_map().contains_key(a));
            }
        }
    }
    Ok(())
}

} // verus!
