use vstd::prelude::*;
use crate::authority::{ata_of, escrow_tag, pda_of};
use crate::contexts::make::{make_check, make_post};
use crate::contexts::refund::{refund_check, refund_post};
use crate::contexts::take::{bootstrapped, take_check, take_post};
use crate::error::EscrowError;
use crate::ids::AccountId;
use crate::ledger::{transfer_check, transferred, Ledger};

verus! {

/// After a valid Make(seed, deposit, receive), the vault exists, holds
/// mintA, is owned by the record's derived address, and its balance is
/// exactly the deposit; the record stores (seed, mintA, mintB, receive) for
/// the maker.
pub proof fn lemma_make_funds_vault(
    pre: Ledger,
    post: Ledger,
    maker: AccountId,
    mint_a: AccountId,
    mint_b: AccountId,
    seed: u64,
    deposit: u64,
    receive: u64,
)
    requires
        make_check(pre, maker, mint_a, mint_b, seed, deposit) is None,
        make_post(pre, post, maker, mint_a, mint_b, seed, deposit, receive),
    ensures
        pda_of(escrow_tag(), maker, seed, pre.program_id) is Some,
        ({
            let (ea, bump) = pda_of(escrow_tag(), maker, seed, pre.program_id).unwrap();
            let vault = ata_of(ea, mint_a);
            &&& post.token_map().contains_key(vault)
            &&& post.token_map()[vault].amount == deposit
            &&& post.token_map()[vault].mint == mint_a
            &&& post.token_map()[vault].owner == ea
            &&& post.record_map().contains_key(ea)
            &&& post.record_map()[ea].maker == maker
            &&& post.record_map()[ea].record.seed == seed
            &&& post.record_map()[ea].record.mint_a == mint_a
            &&& post.record_map()[ea].record.mint_b == mint_b
            &&& post.record_map()[ea].record.receive == receive
            &&& post.record_map()[ea].record.bump == bump
        }),
{
    let (ea, bump) = pda_of(escrow_tag(), maker, seed, pre.program_id).unwrap();
    let vault = ata_of(ea, mint_a);
    let m_a = ata_of(maker, mint_a);
    assert(m_a != vault);
}

/// A Make whose (maker, seed) pair already backs a live record fails with
/// DuplicateSeed, whatever mints or amounts it names. Together with Make's
/// own contract (an error leaves the state untouched), no state change
/// occurs.
pub proof fn lemma_duplicate_seed(
    pre: Ledger,
    post: Ledger,
    maker: AccountId,
    mint_a: AccountId,
    mint_b: AccountId,
    seed: u64,
    deposit: u64,
    receive: u64,
    mint_a2: AccountId,
    mint_b2: AccountId,
    deposit2: u64,
)
    requires
        make_check(pre, maker, mint_a, mint_b, seed, deposit) is None,
        make_post(pre, post, maker, mint_a, mint_b, seed, deposit, receive),
    ensures
        make_check(post, maker, mint_a2, mint_b2, seed, deposit2) == Some(
            EscrowError::DuplicateSeed,
        ),
{
}

/// Take must fail whenever the taker's mintB balance is below the record's
/// receive amount. Together with Take's own contract (an error leaves the
/// state untouched), no transfer occurs: the maker's mintB balance and the
/// vault are unchanged.
pub proof fn lemma_take_underfunded(
    pre: Ledger,
    taker: AccountId,
    maker: AccountId,
    escrow_addr: AccountId,
)
    requires
        pre.record_map().contains_key(escrow_addr),
        pre.balance_of(ata_of(taker, pre.record_map()[escrow_addr].record.mint_b))
            < pre.record_map()[escrow_addr].record.receive,
    ensures
        take_check(pre, taker, maker, escrow_addr) is Some,
{
    let e = pre.record_map()[escrow_addr];
    let rec = e.record;
    let m = pre.token_map();
    let t_b = ata_of(taker, rec.mint_b);
    let m_b = ata_of(maker, rec.mint_b);
    let t_a = ata_of(taker, rec.mint_a);
    if take_check(pre, taker, maker, escrow_addr) is None {
        let m1 = bootstrapped(bootstrapped(m, m_b, rec.mint_b, maker), t_a, rec.mint_a, taker);
        assert(m.contains_key(t_b));
        assert(m1[t_b] == m[t_b]);
        assert(m1[t_b].amount < rec.receive);
        assert(transfer_check(m1, t_b, m_b, taker, rec.receive) is Some);
        assert(false);
    }
}

/// A successful Take moves exactly `receive` of mintB from the taker to the
/// maker and exactly the vault's entire mintA balance to the taker, and
/// leaves neither the record nor the vault in existence. The three holding
/// accounts are required distinct: the derivation makes them so whenever the
/// maker and taker are different principals.
pub proof fn lemma_take_settles(
    pre: Ledger,
    post: Ledger,
    taker: AccountId,
    maker: AccountId,
    escrow_addr: AccountId,
)
    requires
        take_check(pre, taker, maker, escrow_addr) is None,
        take_post(pre, post, taker, maker, escrow_addr),
        ata_of(taker, pre.record_map()[escrow_addr].record.mint_b) != ata_of(
            maker,
            pre.record_map()[escrow_addr].record.mint_b,
        ),
        ata_of(taker, pre.record_map()[escrow_addr].record.mint_a) != ata_of(
            maker,
            pre.record_map()[escrow_addr].record.mint_b,
        ),
        ata_of(taker, pre.record_map()[escrow_addr].record.mint_a) != ata_of(
            taker,
            pre.record_map()[escrow_addr].record.mint_b,
        ),
    ensures
        ({
            let rec = pre.record_map()[escrow_addr].record;
            let vault = ata_of(escrow_addr, rec.mint_a);
            let t_b = ata_of(taker, rec.mint_b);
            let m_b = ata_of(maker, rec.mint_b);
            let t_a = ata_of(taker, rec.mint_a);
            &&& !post.record_map().contains_key(escrow_addr)
            &&& !post.token_map().contains_key(vault)
            &&& post.balance_of(m_b) == pre.balance_of(m_b) + rec.receive
            &&& post.balance_of(t_a) == pre.balance_of(t_a) + pre.balance_of(vault)
            &&& post.balance_of(t_b) == pre.balance_of(t_b) - rec.receive
        }),
{
    let rec = pre.record_map()[escrow_addr].record;
    let m = pre.token_map();
    let vault = ata_of(escrow_addr, rec.mint_a);
    let t_b = ata_of(taker, rec.mint_b);
    let m_b = ata_of(maker, rec.mint_b);
    let t_a = ata_of(taker, rec.mint_a);
    let m1 = bootstrapped(bootstrapped(m, m_b, rec.mint_b, maker), t_a, rec.mint_a, taker);
    let m2 = transferred(m1, t_b, m_b, rec.receive);
    let m3 = transferred(m2, vault, t_a, m2[vault].amount);
    assert(m1[t_b] == m[t_b]);
    assert(m1[vault] == m[vault]);
    assert(m2[vault] == m[vault]);
    assert(post.token_map() == m3.remove(vault));
    assert(post.balance_of(m_b) == m2[m_b].amount);
    assert(post.balance_of(t_a) == m3[t_a].amount);
    assert(post.balance_of(t_b) == m2[t_b].amount);
}

/// A successful Refund returns the vault's entire balance to the maker and
/// destroys the record and the vault.
pub proof fn lemma_refund_returns(
    pre: Ledger,
    post: Ledger,
    signer: AccountId,
    escrow_addr: AccountId,
)
    requires
        refund_check(pre, signer, escrow_addr) is None,
        refund_post(pre, post, signer, escrow_addr),
    ensures
        ({
            let rec = pre.record_map()[escrow_addr].record;
            let vault = ata_of(escrow_addr, rec.mint_a);
            let m_a = ata_of(signer, rec.mint_a);
            &&& !post.record_map().contains_key(escrow_addr)
            &&& !post.token_map().contains_key(vault)
            &&& post.balance_of(m_a) == pre.balance_of(m_a) + pre.balance_of(vault)
        }),
{
}

/// A Refund whose signer is not the record's maker fails with
/// AuthorizationError. Together with Refund's own contract (an error leaves
/// the state untouched), all balances stay as they were.
pub proof fn lemma_refund_wrong_signer(pre: Ledger, signer: AccountId, escrow_addr: AccountId)
    requires
        pre.record_map().contains_key(escrow_addr),
        pre.record_map()[escrow_addr].maker != signer,
    ensures
        refund_check(pre, signer, escrow_addr) == Some(EscrowError::AuthorizationError),
{
}

/// Settlement is terminal: once the record at an address is gone (as every
/// successful Take or Refund ensures), any later Take or Refund that
/// references that address fails, whoever submits it. Together with the
/// operations' own contracts, the failed attempt changes nothing.
pub proof fn lemma_settlement_is_terminal(
    mid: Ledger,
    taker2: AccountId,
    maker2: AccountId,
    signer2: AccountId,
    escrow_addr: AccountId,
)
    requires
        !mid.record_map().contains_key(escrow_addr),
    ensures
        take_check(mid, taker2, maker2, escrow_addr) == Some(EscrowError::ConstraintViolation),
        refund_check(mid, signer2, escrow_addr) == Some(EscrowError::ConstraintViolation),
{
}

/// A successful Take destroys its record, so the premise of
/// `lemma_settlement_is_terminal` holds of the state it leaves.
pub proof fn lemma_take_destroys_record(
    pre: Ledger,
    post: Ledger,
    taker: AccountId,
    maker: AccountId,
    escrow_addr: AccountId,
)
    requires
        take_post(pre, post, taker, maker, escrow_addr),
    ensures
        !post.record_map().contains_key(escrow_addr),
{
}

/// Make creates the record and its vault together: if every live record was
/// paired with its own vault before, it still is after, and so is the new
/// record.
pub proof fn lemma_make_keeps_vaults_intact(
    pre: Ledger,
    post: Ledger,
    maker: AccountId,
    mint_a: AccountId,
    mint_b: AccountId,
    seed: u64,
    deposit: u64,
    receive: u64,
)
    requires
        pre.wf(),
        pre.vaults_intact(),
        make_check(pre, maker, mint_a, mint_b, seed, deposit) is None,
        make_post(pre, post, maker, mint_a, mint_b, seed, deposit, receive),
    ensures
        post.vaults_intact(),
{
    let (ea, bump) = pda_of(escrow_tag(), maker, seed, pre.program_id).unwrap();
    let vault = ata_of(ea, mint_a);
    let m_a = ata_of(maker, mint_a);
    assert(m_a != vault);
    assert forall|a: AccountId| #[trigger] post.record_map().contains_key(a) implies {
        let e = post.record_map()[a];
        let v = ata_of(e.addr, e.record.mint_a);
        &&& post.token_map().contains_key(v)
        &&& post.token_map()[v].mint == e.record.mint_a
        &&& post.token_map()[v].owner == e.addr
    } by {
        if a != ea {
            assert(pre.record_map().contains_key(a));
            let e = pre.record_map()[a];
            let v = ata_of(e.addr, e.record.mint_a);
            assert(pre.token_map().contains_key(v));
            assert(v != vault);
        }
    }
    assert forall|a: AccountId, b: AccountId|
        #[trigger] post.record_map().contains_key(a) && #[trigger] post.record_map().contains_key(
            b,
        ) && a != b implies ata_of(post.record_map()[a].addr, post.record_map()[a].record.mint_a)
        != ata_of(post.record_map()[b].addr, post.record_map()[b].record.mint_a) by {
        if a == ea {
            let eb = pre.record_map()[b];
            assert(pre.token_map().contains_key(ata_of(eb.addr, eb.record.mint_a)));
        } else if b == ea {
            let ea2 = pre.record_map()[a];
            assert(pre.token_map().contains_key(ata_of(ea2.addr, ea2.record.mint_a)));
        } else {
            assert(pre.record_map().contains_key(a));
            assert(pre.record_map().contains_key(b));
        }
    }
}

/// Take destroys the record and its vault together and touches no other
/// pair: pairing survives.
pub proof fn lemma_take_keeps_vaults_intact(
    pre: Ledger,
    post: Ledger,
    taker: AccountId,
    maker: AccountId,
    escrow_addr: AccountId,
)
    requires
        pre.wf(),
        pre.vaults_intact(),
        take_check(pre, taker, maker, escrow_addr) is None,
        take_post(pre, post, taker, maker, escrow_addr),
    ensures
        post.vaults_intact(),
{
    let e = pre.record_map()[escrow_addr];
    let rec = e.record;
    let m = pre.token_map();
    let vault = ata_of(escrow_addr, rec.mint_a);
    let t_b = ata_of(taker, rec.mint_b);
    let m_b = ata_of(maker, rec.mint_b);
    let t_a = ata_of(taker, rec.mint_a);
    let m1 = bootstrapped(bootstrapped(m, m_b, rec.mint_b, maker), t_a, rec.mint_a, taker);
    let m2 = transferred(m1, t_b, m_b, rec.receive);
    let m3 = transferred(m2, vault, t_a, m2[vault].amount);
    assert(e.addr == escrow_addr);
    assert forall|a: AccountId| #[trigger] post.record_map().contains_key(a) implies {
        let en = post.record_map()[a];
        let v = ata_of(en.addr, en.record.mint_a);
        &&& post.token_map().contains_key(v)
        &&& post.token_map()[v].mint == en.record.mint_a
        &&& post.token_map()[v].owner == en.addr
    } by {
        assert(a != escrow_addr);
        assert(pre.record_map().contains_key(a));
        let en = pre.record_map()[a];
        let v = ata_of(en.addr, en.record.mint_a);
        assert(v != vault);
        assert(m.contains_key(v));
        assert(m1[v].mint == m[v].mint && m1[v].owner == m[v].owner);
        assert(m2[v].mint == m1[v].mint && m2[v].owner == m1[v].owner);
        assert(m3[v].mint == m2[v].mint && m3[v].owner == m2[v].owner);
    }
    assert forall|a: AccountId, b: AccountId|
        #[trigger] post.record_map().contains_key(a) && #[trigger] post.record_map().contains_key(
            b,
        ) && a != b implies ata_of(post.record_map()[a].addr, post.record_map()[a].record.mint_a)
        != ata_of(post.record_map()[b].addr, post.record_map()[b].record.mint_a) by {
        assert(pre.record_map().contains_key(a));
        assert(pre.record_map().contains_key(b));
    }
}

/// Refund destroys the record and its vault together and touches no other
/// pair: pairing survives.
pub proof fn lemma_refund_keeps_vaults_intact(
    pre: Ledger,
    post: Ledger,
    signer: AccountId,
    escrow_addr: AccountId,
)
    requires
        pre.wf(),
        pre.vaults_intact(),
        refund_check(pre, signer, escrow_addr) is None,
        refund_post(pre, post, signer, escrow_addr),
    ensures
        post.vaults_intact(),
{
    let e = pre.record_map()[escrow_addr];
    let rec = e.record;
    let m = pre.token_map();
    let vault = ata_of(escrow_addr, rec.mint_a);
    let m_a = ata_of(signer, rec.mint_a);
    let m1 = transferred(m, vault, m_a, m[vault].amount);
    assert(e.addr == escrow_addr);
    assert forall|a: AccountId| #[trigger] post.record_map().contains_key(a) implies {
        let en = post.record_map()[a];
        let v = ata_of(en.addr, en.record.mint_a);
        &&& post.token_map().contains_key(v)
        &&& post.token_map()[v].mint == en.record.mint_a
        &&& post.token_map()[v].owner == en.addr
    } by {
        assert(a != escrow_addr);
        assert(pre.record_map().contains_key(a));
        let en = pre.record_map()[a];
        let v = ata_of(en.addr, en.record.mint_a);
        assert(v != vault);
        assert(m.contains_key(v));
        assert(m1[v].mint == m[v].mint && m1[v].owner == m[v].owner);
    }
    assert forall|a: AccountId, b: AccountId|
        #[trigger] post.record_map().contains_key(a) && #[trigger] post.record_map().contains_key(
            b,
        ) && a != b implies ata_of(post.record_map()[a].addr, post.record_map()[a].record.mint_a)
        != ata_of(post.record_map()[b].addr, post.record_map()[b].record.mint_a) by {
        assert(pre.record_map().contains_key(a));
        assert(pre.record_map().contains_key(b));
    }
}

/// A successful Refund destroys its record, so the premise of
/// `lemma_settlement_is_terminal` holds of the state it leaves.
pub proof fn lemma_refund_destroys_record(
    pre: Ledger,
    post: Ledger,
    signer: AccountId,
    escrow_addr: AccountId,
)
    requires
        refund_post(pre, post, signer, escrow_addr),
    ensures
        !post.record_map().contains_key(escrow_addr),
{
}

} // verus!
