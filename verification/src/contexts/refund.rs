use vstd::prelude::*;
use crate::authority::{ata_of, escrow_tag, escrow_tag_bytes, find_holding_address, find_program_address, pda_of};
use crate::error::EscrowError;
use crate::ids::AccountId;
use crate::ledger::{transfer_check, transferred, Ledger};
use crate::state::Escrow;

verus! {

/// The resolved accounts of one Refund operation: the maker (its signer),
/// the record and vault being destroyed, and the maker's mintA account that
/// receives the vault's balance.
pub struct Refund {
    pub maker: AccountId,
    pub escrow: AccountId,
    pub record: Escrow,
    pub vault: AccountId,
    pub maker_ata_a: AccountId,
}

/// Which error, if any, Refund raises, in the order the operation checks:
/// a missing record, a signer that is not the record's maker, a failed
/// derived-authority reconstruction, a missing or foreign vault, a missing
/// or mismatched maker holding account, and finally whatever the asset
/// ledger says of returning the vault's balance.
pub open spec fn refund_check(l: Ledger, signer: AccountId, escrow_addr: AccountId) -> Option<
    EscrowError,
> {
    let m = l.token_map();
    if !l.record_map().contains_key(escrow_addr) {
        Some(EscrowError::ConstraintViolation)
    } else {
        let e = l.record_map()[escrow_addr];
        let rec = e.record;
        let vault = ata_of(escrow_addr, rec.mint_a);
        let m_a = ata_of(signer, rec.mint_a);
        if e.maker != signer {
            Some(EscrowError::AuthorizationError)
        } else if pda_of(escrow_tag(), signer, rec.seed, l.program_id) != Some(
            (escrow_addr, rec.bump),
        ) {
            Some(EscrowError::AuthorizationError)
        } else if !m.contains_key(vault) || m[vault].mint != rec.mint_a {
            Some(EscrowError::ConstraintViolation)
        } else if m[vault].owner != escrow_addr {
            Some(EscrowError::AuthorizationError)
        } else if vault == m_a {
            Some(EscrowError::ConstraintViolation)
        } else if !m.contains_key(m_a) || m[m_a].mint != rec.mint_a || m[m_a].owner != signer {
            Some(EscrowError::ConstraintViolation)
        } else {
            transfer_check(m, vault, m_a, escrow_addr, m[vault].amount)
        }
    }
}

/// The state a successful Refund leaves behind: the vault's entire balance
/// is back with the maker, and the vault and the record no longer exist.
pub open spec fn refund_post(pre: Ledger, post: Ledger, signer: AccountId, escrow_addr: AccountId) -> bool {
    let m = pre.token_map();
    if !pre.record_map().contains_key(escrow_addr) {
        false
    } else {
        let e = pre.record_map()[escrow_addr];
        let rec = e.record;
        let vault = ata_of(escrow_addr, rec.mint_a);
        let m_a = ata_of(signer, rec.mint_a);
        let m1 = transferred(m, vault, m_a, m[vault].amount);
        &&& post.token_map() == m1.remove(vault)
        &&& post.record_map() == pre.record_map().remove(escrow_addr)
        &&& post.program_id == pre.program_id
    }
}

impl Refund {
    /// Returns the vault's entire balance to the maker, authorized by the
    /// record's reconstructed derived authority, then closes the vault. The
    /// caller has already established every constraint, so this cannot fail.
    pub fn refund_and_close_vault(&self, l: &mut Ledger) -> (r: Result<(), EscrowError>)
        requires
            old(l).addrs_unique(),
            old(l).token_map().contains_key(self.vault),
            old(l).token_map().contains_key(self.maker_ata_a),
            self.vault != self.maker_ata_a,
            old(l).token_map()[self.vault].owner == self.escrow,
            old(l).token_map()[self.vault].mint == old(l).token_map()[self.maker_ata_a].mint,
            old(l).token_map()[self.maker_ata_a].amount + old(l).token_map()[self.vault].amount
                <= u64::MAX,
        ensures
            final(l).addrs_unique(),
            final(l).records@ == old(l).records@,
            final(l).program_id == old(l).program_id,
            r is Ok,
            final(l).token_map() == transferred(
                old(l).token_map(),
                self.vault,
                self.maker_ata_a,
                old(l).token_map()[self.vault].amount,
            ).remove(self.vault),
    {
        let vo = l.get_token(&self.vault);
        let amt = vo.unwrap().amount;
        let r1 = l.transfer(&self.vault, &self.maker_ata_a, &self.escrow, amt);
        if r1.is_err() {
            proof {
                assert(false);
            }
            return r1;
        }
        let r2 = l.close_account(&self.vault, &self.maker, &self.escrow);
        if r2.is_err() {
            proof {
                assert(false);
            }
            return r2;
        }
        Ok(())
    }
}

/// Returns the vault's entire balance to the maker and destroys the record
/// and the vault. Only the record's maker may trigger it. All or nothing;
/// fails exactly as `refund_check` says.
pub fn refund(l: &mut Ledger, signer: AccountId, escrow_addr: AccountId) -> (r: Result<
    (),
    EscrowError,
>)
    requires
        old(l).wf(),
    ensures
        final(l).wf(),
        match r {
            Ok(()) => refund_check(*old(l), signer, escrow_addr) is None && refund_post(
                *old(l),
                *final(l),
                signer,
                escrow_addr,
            ),
            Err(e) => refund_check(*old(l), signer, escrow_addr) == Some(e) && final(l).tokens@
                == old(l).tokens@ && final(l).records@ == old(l).records@ && final(l).program_id
                == old(l).program_id,
        },
{
    let eo = l.get_record(&escrow_addr);
    if eo.is_none() {
        return Err(EscrowError::ConstraintViolation);
    }
    let e = eo.unwrap();
    let rec = e.record;
    if !e.maker.id_eq(&signer) {
        return Err(EscrowError::AuthorizationError);
    }
    let tag = escrow_tag_bytes();
    let pda = find_program_address(&tag, &signer, rec.seed, &l.program_id);
    let pda_ok = match &pda {
        Some(p) => p.0.id_eq(&escrow_addr) && p.1 == rec.bump,
        None => false,
    };
    if !pda_ok {
        return Err(EscrowError::AuthorizationError);
    }
    let vault = find_holding_address(&escrow_addr, &rec.mint_a);
    let vo = l.get_token(&vault);
    if vo.is_none() {
        return Err(EscrowError::ConstraintViolation);
    }
    let v = vo.unwrap();
    if !v.mint.id_eq(&rec.mint_a) {
        return Err(EscrowError::ConstraintViolation);
    }
    if !v.owner.id_eq(&escrow_addr) {
        return Err(EscrowError::AuthorizationError);
    }
    let m_a = find_holding_address(&signer, &rec.mint_a);
    if vault.id_eq(&m_a) {
        return Err(EscrowError::ConstraintViolation);
    }
    let mao = l.get_token(&m_a);
    if mao.is_none() {
        return Err(EscrowError::ConstraintViolation);
    }
    let ma = mao.unwrap();
    if !ma.mint.id_eq(&rec.mint_a) || !ma.owner.id_eq(&signer) {
        return Err(EscrowError::ConstraintViolation);
    }
    if v.amount > u64::MAX - ma.amount {
        return Err(EscrowError::InsufficientFunds);
    }
    let ctx = Refund { maker: signer, escrow: escrow_addr, record: rec, vault, maker_ata_a: m_a };
    let rr = ctx.refund_and_close_vault(l);
    if rr.is_err() {
        proof {
            assert(false);
        }
        return rr;
    }
    l.drop_record(&escrow_addr);
    proof {
        let post = *l;
        assert forall|a: AccountId| #[trigger] post.record_map().contains_key(a) implies {
            let en = post.record_map()[a];
            en.addr == a && pda_of(escrow_tag(), en.maker, en.record.seed, post.program_id)
                == Some((en.addr, en.record.bump))
        } by {
            assert(old(l).record_map().contains_key(a));
        }
    }
    Ok(())
}

} // verus!
