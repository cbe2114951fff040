use vstd::prelude::*;
use crate::authority::{ata_of, escrow_tag, escrow_tag_bytes, find_holding_address, find_program_address, pda_of};
use crate::error::EscrowError;
use crate::ids::AccountId;
use crate::ledger::{transfer_check, transfer_checked_check, transferred, Ledger, TokenAccount};
use crate::state::Escrow;

verus! {

/// The resolved accounts of one Take operation: the taker (its signer), the
/// maker who receives the counter-payment, the record and vault being
/// destroyed, and the three holding accounts the payments run through.
pub struct Take {
    pub taker: AccountId,
    pub maker: AccountId,
    pub escrow: AccountId,
    pub record: Escrow,
    pub vault: AccountId,
    pub taker_ata_a: AccountId,
    pub taker_ata_b: AccountId,
    pub maker_ata_b: AccountId,
}

/// The token accounts after bootstrapping the holding account `a`: created
/// empty if absent, untouched if present.
pub open spec fn bootstrapped(
    m: Map<AccountId, TokenAccount>,
    a: AccountId,
    mint: AccountId,
    owner: AccountId,
) -> Map<AccountId, TokenAccount> {
    if m.contains_key(a) {
        m
    } else {
        m.insert(a, TokenAccount { addr: a, mint, owner, amount: 0 })
    }
}

/// Which error, if any, Take raises, in the order the operation checks: a
/// missing record, a record that does not belong to the supplied maker, a
/// failed derived-authority reconstruction, a missing or foreign vault, a
/// vault that doubles as a payment or payout account, missing or mismatched
/// holding accounts, and finally whatever the asset ledger says of the
/// counter-payment and the payout.
pub open spec fn take_check(l: Ledger, taker: AccountId, maker: AccountId, escrow_addr: AccountId) -> Option<EscrowError> {
    let m = l.token_map();
    if !l.record_map().contains_key(escrow_addr) {
        Some(EscrowError::ConstraintViolation)
    } else {
        let e = l.record_map()[escrow_addr];
        let rec = e.record;
        let vault = ata_of(escrow_addr, rec.mint_a);
        let t_b = ata_of(taker, rec.mint_b);
        let m_b = ata_of(maker, rec.mint_b);
        let t_a = ata_of(taker, rec.mint_a);
        if e.maker != maker {
            Some(EscrowError::ConstraintViolation)
        } else if pda_of(escrow_tag(), maker, rec.seed, l.program_id) != Some(
            (escrow_addr, rec.bump),
        ) {
            Some(EscrowError::AuthorizationError)
        } else if !m.contains_key(vault) || m[vault].mint != rec.mint_a {
            Some(EscrowError::ConstraintViolation)
        } else if m[vault].owner != escrow_addr {
            Some(EscrowError::AuthorizationError)
        } else if vault == t_b || vault == m_b || vault == t_a {
            Some(EscrowError::ConstraintViolation)
        } else if !m.contains_key(t_b) || m[t_b].mint != rec.mint_b || m[t_b].owner != taker {
            Some(EscrowError::ConstraintViolation)
        } else if m.contains_key(m_b) && (m[m_b].mint != rec.mint_b || m[m_b].owner != maker) {
            Some(EscrowError::ConstraintViolation)
        } else if m.contains_key(t_a) && (m[t_a].mint != rec.mint_a || m[t_a].owner != taker) {
            Some(EscrowError::ConstraintViolation)
        } else {
            let m1 = bootstrapped(bootstrapped(m, m_b, rec.mint_b, maker), t_a, rec.mint_a, taker);
            match transfer_check(m1, t_b, m_b, taker, rec.receive) {
                Some(er) => Some(er),
                None => {
                    let m2 = transferred(m1, t_b, m_b, rec.receive);
                    transfer_check(m2, vault, t_a, escrow_addr, m2[vault].amount)
                },
            }
        }
    }
}

/// The state a successful Take leaves behind: the counter-payment of exactly
/// `receive` mintB went from the taker to the maker, the vault's entire
/// mintA balance went to the taker, and the vault and the record no longer
/// exist.
pub open spec fn take_post(pre: Ledger, post: Ledger, taker: AccountId, maker: AccountId, escrow_addr: AccountId) -> bool {
    let m = pre.token_map();
    if !pre.record_map().contains_key(escrow_addr) {
        false
    } else {
        let e = pre.record_map()[escrow_addr];
        let rec = e.record;
        let vault = ata_of(escrow_addr, rec.mint_a);
        let t_b = ata_of(taker, rec.mint_b);
        let m_b = ata_of(maker, rec.mint_b);
        let t_a = ata_of(taker, rec.mint_a);
        let m1 = bootstrapped(bootstrapped(m, m_b, rec.mint_b, maker), t_a, rec.mint_a, taker);
        let m2 = transferred(m1, t_b, m_b, rec.receive);
        let m3 = transferred(m2, vault, t_a, m2[vault].amount);
        &&& post.token_map() == m3.remove(vault)
        &&& post.record_map() == pre.record_map().remove(escrow_addr)
        &&& post.program_id == pre.program_id
    }
}

impl Take {
    /// The counter-payment: moves exactly the record's `receive` of mintB
    /// from the taker to the maker, authorized by the taker's own signature,
    /// through the checked-transfer form validating the asset moved.
    pub fn deposit(&self, l: &mut Ledger) -> (r: Result<(), EscrowError>)
        requires
            old(l).addrs_unique(),
        ensures
            final(l).addrs_unique(),
            final(l).records@ == old(l).records@,
            final(l).program_id == old(l).program_id,
            match r {
                Ok(()) => transfer_checked_check(
                    old(l).token_map(),
                    self.taker_ata_b,
                    self.maker_ata_b,
                    self.taker,
                    self.record.receive,
                    self.record.mint_b,
                ) is None && final(l).token_map() == transferred(
                    old(l).token_map(),
                    self.taker_ata_b,
                    self.maker_ata_b,
                    self.record.receive,
                ),
                Err(e) => transfer_checked_check(
                    old(l).token_map(),
                    self.taker_ata_b,
                    self.maker_ata_b,
                    self.taker,
                    self.record.receive,
                    self.record.mint_b,
                ) == Some(e) && final(l).tokens@ == old(l).tokens@,
            },
    {
        l.transfer_checked(
            &self.taker_ata_b,
            &self.maker_ata_b,
            &self.taker,
            self.record.receive,
            &self.record.mint_b,
        )
    }

    /// The payout: moves the vault's entire balance to the taker, authorized
    /// by the record's reconstructed derived authority, then closes the
    /// vault. The caller has already established every constraint, so this
    /// cannot fail.
    pub fn withdraw_and_close_vault(&self, l: &mut Ledger) -> (r: Result<(), EscrowError>)
        requires
            old(l).addrs_unique(),
            old(l).token_map().contains_key(self.vault),
            old(l).token_map().contains_key(self.taker_ata_a),
            self.vault != self.taker_ata_a,
            old(l).token_map()[self.vault].owner == self.escrow,
            old(l).token_map()[self.vault].mint == self.record.mint_a,
            old(l).token_map()[self.vault].mint == old(l).token_map()[self.taker_ata_a].mint,
            old(l).token_map()[self.taker_ata_a].amount + old(l).token_map()[self.vault].amount
                <= u64::MAX,
        ensures
            final(l).addrs_unique(),
            final(l).records@ == old(l).records@,
            final(l).program_id == old(l).program_id,
            r is Ok,
            final(l).token_map() == transferred(
                old(l).token_map(),
                self.vault,
                self.taker_ata_a,
                old(l).token_map()[self.vault].amount,
            ).remove(self.vault),
    {
        let vo = l.get_token(&self.vault);
        let amt = vo.unwrap().amount;
        let r1 = l.transfer_checked(
            &self.vault,
            &self.taker_ata_a,
            &self.escrow,
            amt,
            &self.record.mint_a,
        );
        if r1.is_err() {
            proof {
                assert(false);
            }
            return r1;
        }
        let r2 = l.close_account(&self.vault, &self.taker, &self.escrow);
        if r2.is_err() {
            proof {
                assert(false);
            }
            return r2;
        }
        Ok(())
    }
}

/// Settles the escrow: the taker pays exactly the record's `receive` of
/// mintB to the maker, receives the vault's entire mintA balance, and the
/// vault and the record are destroyed. All or nothing; fails exactly as
/// `take_check` says.
pub fn take(l: &mut Ledger, taker: AccountId, maker: AccountId, escrow_addr: AccountId) -> (r:
    Result<(), EscrowError>)
    requires
        old(l).wf(),
    ensures
        final(l).wf(),
        match r {
            Ok(()) => take_check(*old(l), taker, maker, escrow_addr) is None && take_post(
                *old(l),
                *final(l),
                taker,
                maker,
                escrow_addr,
            ),
            Err(e) => take_check(*old(l), taker, maker, escrow_addr) == Some(e) && final(l).tokens@
                == old(l).tokens@ && final(l).records@ == old(l).records@ && final(l).program_id
                == old(l).program_id,
        },
{
    let eo = l.get_record(&escrow_addr);
    if eo.is_none() {
        return Err(EscrowError::ConstraintViolation);
    }
    let e = eo.unwrap();
    let rec = e.record;
    if !e.maker.id_eq(&maker) {
        return Err(EscrowError::ConstraintViolation);
    }
    let tag = escrow_tag_bytes();
    let pda = find_program_address(&tag, &maker, rec.seed, &l.program_id);
    let pda_ok = match &pda {
        Some(p) => p.0.id_eq(&escrow_addr) && p.1 == rec.bump,
        None => false,
    };
    if !pda_ok {
        return Err(EscrowError::AuthorizationError);
    }
    let vault = find_holding_address(&escrow_addr, &rec.mint_a);
    let t_b = find_holding_address(&taker, &rec.mint_b);
    let m_b = find_holding_address(&maker, &rec.mint_b);
    let t_a = find_holding_address(&taker, &rec.mint_a);
    let vo = l.get_token(&vault);
    if vo.is_none() {
        return Err(EscrowError::ConstraintViolation);
    }
    let v = vo.unwrap();
    if !v.mint.id_eq(&rec.mint_a) {
        return Err(EscrowError::ConstraintViolation);
    }
    if !v.owner.id_eq(&escrow_addr) {
        return Err(EscrowError::AuthorizationError);
    }
    if vault.id_eq(&t_b) || vault.id_eq(&m_b) || vault.id_eq(&t_a) {
        return Err(EscrowError::ConstraintViolation);
    }
    let tbo = l.get_token(&t_b);
    if tbo.is_none() {
        return Err(EscrowError::ConstraintViolation);
    }
    let tb = tbo.unwrap();
    if !tb.mint.id_eq(&rec.mint_b) || !tb.owner.id_eq(&taker) {
        return Err(EscrowError::ConstraintViolation);
    }
    let mbo = l.get_token(&m_b);
    if mbo.is_some() {
        let mb = mbo.unwrap();
        if !mb.mint.id_eq(&rec.mint_b) || !mb.owner.id_eq(&maker) {
            return Err(EscrowError::ConstraintViolation);
        }
    }
    let tao = l.get_token(&t_a);
    if tao.is_some() {
        let ta = tao.unwrap();
        if !ta.mint.id_eq(&rec.mint_a) || !ta.owner.id_eq(&taker) {
            return Err(EscrowError::ConstraintViolation);
        }
    }
    // the two transfers, judged before anything is touched
    let ghost m0 = l.token_map();
    let ghost m1 = bootstrapped(bootstrapped(m0, m_b, rec.mint_b, maker), t_a, rec.mint_a, taker);
    proof {
        assert(m1[t_b] == m0[t_b]);
        assert(m1[vault] == m0[vault]);
        if m0.contains_key(m_b) {
            assert(m1[m_b] == m0[m_b]);
        }
    }
    if tb.amount < rec.receive {
        return Err(EscrowError::InsufficientFunds);
    }
    let mb_amt1: u64 = match &mbo {
        Some(x) => x.amount,
        None => 0,
    };
    if !t_b.id_eq(&m_b) && rec.receive > u64::MAX - mb_amt1 {
        return Err(EscrowError::InsufficientFunds);
    }
    proof {
        assert(transfer_check(m1, t_b, m_b, taker, rec.receive) is None);
    }
    let ghost m2 = transferred(m1, t_b, m_b, rec.receive);
    let ta_base: u64 = match &tao {
        Some(x) => x.amount,
        None => 0,
    };
    let ta_after1: u64 = if t_a.id_eq(&t_b) && t_b.id_eq(&m_b) {
        ta_base
    } else if t_a.id_eq(&t_b) {
        ta_base - rec.receive
    } else if t_a.id_eq(&m_b) {
        ta_base + rec.receive
    } else {
        ta_base
    };
    proof {
        assert(m2[t_a].amount == ta_after1);
        assert(m2[vault] == m0[vault]);
    }
    if tao.is_none() && t_a.id_eq(&m_b) && !rec.mint_a.id_eq(&rec.mint_b) {
        // the payout account was just bootstrapped for mintB (its derived
        // address coincides with the maker's mintB account), so it cannot
        // receive mintA: the ledger refuses the payout transfer
        proof {
            assert(m2[t_a].mint == rec.mint_b);
        }
        return Err(EscrowError::ConstraintViolation);
    }
    proof {
        assert(m2[t_a].mint == rec.mint_a);
    }
    if v.amount > u64::MAX - ta_after1 {
        return Err(EscrowError::InsufficientFunds);
    }
    proof {
        assert(transfer_check(m2, vault, t_a, escrow_addr, m2[vault].amount) is None);
    }
    // every check has passed: bootstrap the payout accounts, run the
    // counter-payment, the payout, and both teardowns
    if l.get_token(&m_b).is_none() {
        l.push_token(TokenAccount { addr: m_b, mint: rec.mint_b, owner: maker, amount: 0 });
    }
    if l.get_token(&t_a).is_none() {
        l.push_token(TokenAccount { addr: t_a, mint: rec.mint_a, owner: taker, amount: 0 });
    }
    proof {
        assert(l.token_map() == m1);
    }
    let ctx = Take {
        taker,
        maker,
        escrow: escrow_addr,
        record: rec,
        vault,
        taker_ata_a: t_a,
        taker_ata_b: t_b,
        maker_ata_b: m_b,
    };
    let dep = ctx.deposit(l);
    if dep.is_err() {
        proof {
            assert(false);
        }
        return dep;
    }
    proof {
        assert(l.token_map() == m2);
    }
    let wd = ctx.withdraw_and_close_vault(l);
    if wd.is_err() {
        proof {
            assert(false);
        }
        return wd;
    }
    l.drop_record(&escrow_addr);
    proof {
        let post = *l;
        assert forall|a: AccountId| #[trigger] post.record_map().contains_key(a) implies {
            let en = post.record_map()[a];
            en.addr == a && pda_of(escrow_tag(), en.maker, en.record.seed, post.program_id)
                == Some((en.addr, en.record.bump))
        } by {
            assert(old(l).record_map().contains_key(a));
        }
    }
    Ok(())
}

} // verus!
