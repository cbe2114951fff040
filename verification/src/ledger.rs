use vstd::prelude::*;
use crate::authority::{ata_of, escrow_tag, pda_of};
use crate::error::EscrowError;
use crate::ids::AccountId;
use crate::state::Escrow;

verus! {

/// A balance-holding account of the asset ledger: it holds `amount` units of
/// the asset `mint` and only `owner` may authorize outflows from it.
#[derive(Clone, Copy, PartialEq, Eq, Debug)]
pub struct TokenAccount {
    pub addr: AccountId,
    pub mint: AccountId,
    pub owner: AccountId,
    pub amount: u64,
}

/// A live escrow record together with the maker that its address was derived
/// from (the derivation parameters that later operations reconstruct).
#[derive(Clone, Copy, PartialEq, Eq, Debug)]
pub struct EscrowAccount {
    pub addr: AccountId,
    pub maker: AccountId,
    pub record: Escrow,
}

/// An entity stored at a unique address.
pub trait Keyed: Sized {
    spec fn key(self) -> AccountId;
}

impl Keyed for TokenAccount {
    open spec fn key(self) -> AccountId {
        self.addr
    }
}

impl Keyed for EscrowAccount {
    open spec fn key(self) -> AccountId {
        self.addr
    }
}

/// The sequence of stored entities, read as a map from address to entity.
pub open spec fn map_by_key<T: Keyed>(s: Seq<T>) -> Map<AccountId, T>
    decreases s.len(),
{
    if s.len() == 0 {
        Map::<AccountId, T>::empty()
    } else {
        map_by_key(s.drop_last()).insert(s.last().key(), s.last())
    }
}

/// No two entities share an address.
pub open spec fn unique_keys<T: Keyed>(s: Seq<T>) -> bool {
    forall|i: int, j: int| 0 <= i < j < s.len() ==> s[i].key() != s[j].key()
}

pub proof fn lemma_map_by_key_props<T: Keyed>(s: Seq<T>)
    requires
        unique_keys(s),
    ensures
        forall|i: int|
            0 <= i < s.len() ==> (#[trigger] map_by_key(s).contains_key(s[i].key())
                && map_by_key(s)[s[i].key()] == s[i]),
        forall|a: AccountId|
            #[trigger] map_by_key(s).contains_key(a) ==> exists|i: int|
                0 <= i < s.len() && s[i].key() == a,
        forall|a: AccountId|
            #[trigger] map_by_key(s).contains_key(a) ==> map_by_key(s)[a].key() == a,
    decreases s.len(),
{
    if s.len() > 0 {
        let s0 = s.drop_last();
        assert(forall|i: int| 0 <= i < s0.len() ==> s0[i] == s[i]);
        lemma_map_by_key_props(s0);
        assert(map_by_key(s) == map_by_key(s0).insert(s.last().key(), s.last()));
        assert forall|i: int| 0 <= i < s.len() implies (#[trigger] map_by_key(s).contains_key(
            s[i].key(),
        ) && map_by_key(s)[s[i].key()] == s[i]) by {
            if i < s.len() - 1 {
                assert(s0[i] == s[i]);
                assert(map_by_key(s0).contains_key(s0[i].key()));
                assert(map_by_key(s0)[s0[i].key()] == s0[i]);
                assert(s[i].key() != s.last().key());
            } else {
                assert(s[i] == s.last());
            }
        }
        assert forall|a: AccountId| #[trigger] map_by_key(s).contains_key(a) implies exists|i: int|
            0 <= i < s.len() && s[i].key() == a by {
            if a == s.last().key() {
                assert(s[s.len() - 1].key() == a);
            } else {
                assert(map_by_key(s0).contains_key(a));
                let i = choose|i: int| 0 <= i < s0.len() && s0[i].key() == a;
                assert(s[i] == s0[i]);
                assert(s[i].key() == a);
            }
        }
        assert forall|a: AccountId| #[trigger] map_by_key(s).contains_key(a) implies map_by_key(
            s,
        )[a].key() == a by {
            let i = choose|i: int| 0 <= i < s.len() && s[i].key() == a;
            assert(map_by_key(s).contains_key(s[i].key()) && map_by_key(s)[s[i].key()] == s[i]);
        }
    }
}

pub proof fn lemma_map_by_key_update<T: Keyed>(s: Seq<T>, i: int, v: T)
    requires
        unique_keys(s),
        0 <= i < s.len(),
        v.key() == s[i].key(),
    ensures
        map_by_key(s.update(i, v)) == map_by_key(s).insert(v.key(), v),
        unique_keys(s.update(i, v)),
    decreases s.len(),
{
    let t = s.update(i, v);
    assert(forall|k: int| 0 <= k < s.len() && k != i ==> t[k] == s[k]);
    if i == s.len() - 1 {
        assert(t.drop_last() =~= s.drop_last());
        assert(map_by_key(t) =~= map_by_key(s).insert(v.key(), v));
    } else {
        assert(t.drop_last() =~= s.drop_last().update(i, v));
        lemma_map_by_key_update(s.drop_last(), i, v);
        assert(t.last() == s.last());
        assert(v.key() != s.last().key());
        assert(map_by_key(t) =~= map_by_key(s).insert(v.key(), v));
    }
}

pub proof fn lemma_map_by_key_push<T: Keyed>(s: Seq<T>, v: T)
    requires
        unique_keys(s),
        forall|i: int| 0 <= i < s.len() ==> s[i].key() != v.key(),
    ensures
        map_by_key(s.push(v)) == map_by_key(s).insert(v.key(), v),
        unique_keys(s.push(v)),
{
    assert(s.push(v).drop_last() =~= s);
    assert(s.push(v).last() == v);
    assert(map_by_key(s.push(v)) =~= map_by_key(s).insert(v.key(), v));
    assert(forall|k: int| 0 <= k < s.len() ==> s.push(v)[k] == s[k]);
}

pub proof fn lemma_map_by_key_remove<T: Keyed>(s: Seq<T>, i: int)
    requires
        unique_keys(s),
        0 <= i < s.len(),
    ensures
        map_by_key(s.remove(i)) == map_by_key(s).remove(s[i].key()),
        unique_keys(s.remove(i)),
    decreases s.len(),
{
    let t = s.remove(i);
    assert(forall|k: int| 0 <= k < i ==> t[k] == s[k]);
    assert(forall|k: int| i <= k < t.len() ==> t[k] == s[k + 1]);
    assert(unique_keys(t));
    if i == s.len() - 1 {
        assert(t =~= s.drop_last());
        lemma_map_by_key_props(s.drop_last());
        assert(!map_by_key(s.drop_last()).contains_key(s[i].key()));
        assert(map_by_key(t) =~= map_by_key(s).remove(s[i].key()));
    } else {
        assert(t.drop_last() =~= s.drop_last().remove(i));
        assert(t.last() == s.last());
        lemma_map_by_key_remove(s.drop_last(), i);
        assert(s[i].key() != s.last().key());
        assert(map_by_key(t) =~= map_by_key(s).remove(s[i].key()));
    }
}

/// Which error, if any, the asset ledger raises for
/// `transfer(from, to, authority, amount)`.
pub open spec fn transfer_check(
    m: Map<AccountId, TokenAccount>,
    from: AccountId,
    to: AccountId,
    authority: AccountId,
    amount: u64,
) -> Option<EscrowError> {
    if !m.contains_key(from) || !m.contains_key(to) {
        Some(EscrowError::ConstraintViolation)
    } else if m[from].owner != authority {
        Some(EscrowError::AuthorizationError)
    } else if m[from].mint != m[to].mint {
        Some(EscrowError::ConstraintViolation)
    } else if m[from].amount < amount {
        Some(EscrowError::InsufficientFunds)
    } else if from != to && m[to].amount + amount > u64::MAX {
        Some(EscrowError::InsufficientFunds)
    } else {
        None
    }
}

/// The token accounts after a successful transfer: `amount` leaves `from`,
/// then arrives at `to`. A self-transfer leaves the balance unchanged.
pub open spec fn transferred(
    m: Map<AccountId, TokenAccount>,
    from: AccountId,
    to: AccountId,
    amount: u64,
) -> Map<AccountId, TokenAccount> {
    let f0 = m[from];
    let m1 = m.insert(from, TokenAccount { amount: (f0.amount - amount) as u64, ..f0 });
    let t0 = m1[to];
    m1.insert(to, TokenAccount { amount: (t0.amount + amount) as u64, ..t0 })
}

/// Which error, if any, the asset ledger raises for a checked transfer: as
/// `transfer`, after first validating the caller's expectation of the
/// asset being moved (the analog of the expected-decimals validation of the
/// richer asset interface).
pub open spec fn transfer_checked_check(
    m: Map<AccountId, TokenAccount>,
    from: AccountId,
    to: AccountId,
    authority: AccountId,
    amount: u64,
    expected_mint: AccountId,
) -> Option<EscrowError> {
    if m.contains_key(from) && m[from].mint != expected_mint {
        Some(EscrowError::ConstraintViolation)
    } else {
        transfer_check(m, from, to, authority, amount)
    }
}

/// Which error, if any, the asset ledger raises for closing `account` under
/// `authority`. Only an empty account may be closed.
pub open spec fn close_check(
    m: Map<AccountId, TokenAccount>,
    account: AccountId,
    authority: AccountId,
) -> Option<EscrowError> {
    if !m.contains_key(account) {
        Some(EscrowError::ConstraintViolation)
    } else if m[account].owner != authority {
        Some(EscrowError::AuthorizationError)
    } else if m[account].amount != 0 {
        Some(EscrowError::ConstraintViolation)
    } else {
        None
    }
}

/// The model of the on-chain state this protocol acts against: the token
/// accounts of the asset ledger and the live escrow records, under one
/// program identity. Each operation on it either fully commits or leaves it
/// unchanged.
pub struct Ledger {
    pub program_id: AccountId,
    pub tokens: Vec<TokenAccount>,
    pub records: Vec<EscrowAccount>,
}

impl Ledger {
    /// The token accounts, as a map from address to account.
    pub open spec fn token_map(self) -> Map<AccountId, TokenAccount> {
        map_by_key(self.tokens@)
    }

    /// The live escrow records, as a map from record address to record.
    pub open spec fn record_map(self) -> Map<AccountId, EscrowAccount> {
        map_by_key(self.records@)
    }

    pub open spec fn token_at(self, a: AccountId) -> Option<TokenAccount> {
        if self.token_map().contains_key(a) {
            Some(self.token_map()[a])
        } else {
            None
        }
    }

    pub open spec fn record_at(self, a: AccountId) -> Option<EscrowAccount> {
        if self.record_map().contains_key(a) {
            Some(self.record_map()[a])
        } else {
            None
        }
    }

    pub open spec fn addrs_unique(self) -> bool {
        unique_keys(self.tokens@) && unique_keys(self.records@)
    }

    /// Every live record sits at the address its maker and seed derive, and
    /// stores the derivation's disambiguator.
    pub open spec fn records_derived(self) -> bool {
        forall|a: AccountId|
            #[trigger] self.record_map().contains_key(a) ==> {
                let e = self.record_map()[a];
                e.addr == a && pda_of(escrow_tag(), e.maker, e.record.seed, self.program_id)
                    == Some((e.addr, e.record.bump))
            }
    }

    /// Every live record is paired with exactly one vault: the holding
    /// account of the record's derived address for mintA exists, holds
    /// mintA, is owned by the derived address, and no two records share a
    /// vault. Records and vaults are created together by Make and destroyed
    /// together by Take or Refund, so the three operations keep this intact.
    pub open spec fn vaults_intact(self) -> bool {
        &&& forall|a: AccountId|
            #[trigger] self.record_map().contains_key(a) ==> {
                let e = self.record_map()[a];
                let v = ata_of(e.addr, e.record.mint_a);
                &&& self.token_map().contains_key(v)
                &&& self.token_map()[v].mint == e.record.mint_a
                &&& self.token_map()[v].owner == e.addr
            }
        &&& forall|a: AccountId, b: AccountId|
            #[trigger] self.record_map().contains_key(a) && #[trigger] self.record_map().contains_key(b)
                && a != b ==> ata_of(
                self.record_map()[a].addr,
                self.record_map()[a].record.mint_a,
            ) != ata_of(self.record_map()[b].addr, self.record_map()[b].record.mint_a)
    }

    /// Well-formedness of the protocol state.
    pub open spec fn wf(self) -> bool {
        self.addrs_unique() && self.records_derived()
    }

    /// The balance held at an address: zero if no account exists there.
    pub open spec fn balance_of(self, a: AccountId) -> u64 {
        if self.token_map().contains_key(a) {
            self.token_map()[a].amount
        } else {
            0
        }
    }

    /// Reads the balance held at an address; zero if no account exists.
    pub fn balance(&self, addr: &AccountId) -> (r: u64)
        requires
            self.addrs_unique(),
        ensures
            r == self.balance_of(*addr),
    {
        match self.get_token(addr) {
            Some(t) => t.amount,
            None => 0,
        }
    }

    /// An empty state under the given program identity.
    pub fn new(program_id: AccountId) -> (r: Ledger)
        ensures
            r.wf(),
            r.program_id == program_id,
            r.token_map() == Map::<AccountId, TokenAccount>::empty(),
            r.record_map() == Map::<AccountId, EscrowAccount>::empty(),
    {
        Ledger { program_id, tokens: Vec::new(), records: Vec::new() }
    }

    fn token_index(&self, addr: &AccountId) -> (r: Option<usize>)
        ensures
            match r {
                Some(i) => i < self.tokens@.len() && self.tokens@[i as int].addr == *addr,
                None => forall|i: int| 0 <= i < self.tokens@.len() ==> self.tokens@[i].addr != *addr,
            },
    {
        let mut i: usize = 0;
        while i < self.tokens.len()
            invariant
                0 <= i <= self.tokens@.len(),
                forall|j: int| 0 <= j < i ==> self.tokens@[j].addr != *addr,
            decreases self.tokens@.len() - i,
        {
            if self.tokens[i].addr.id_eq(addr) {
                return Some(i);
            }
            i += 1;
        }
        None
    }

    fn record_index(&self, addr: &AccountId) -> (r: Option<usize>)
        ensures
            match r {
                Some(i) => i < self.records@.len() && self.records@[i as int].addr == *addr,
                None => forall|i: int|
                    0 <= i < self.records@.len() ==> self.records@[i].addr != *addr,
            },
    {
        let mut i: usize = 0;
        while i < self.records.len()
            invariant
                0 <= i <= self.records@.len(),
                forall|j: int| 0 <= j < i ==> self.records@[j].addr != *addr,
            decreases self.records@.len() - i,
        {
            if self.records[i].addr.id_eq(addr) {
                return Some(i);
            }
            i += 1;
        }
        None
    }

    /// Reads the token account at an address, if one exists.
    pub fn get_token(&self, addr: &AccountId) -> (r: Option<TokenAccount>)
        requires
            self.addrs_unique(),
        ensures
            r == self.token_at(*addr),
    {
        proof {
            lemma_map_by_key_props(self.tokens@);
        }
        match self.token_index(addr) {
            Some(i) => Some(self.tokens[i]),
            None => {
                proof {
                    if self.token_map().contains_key(*addr) {
                        let i = choose|i: int|
                            0 <= i < self.tokens@.len() && self.tokens@[i].key() == *addr;
                        assert(self.tokens@[i].addr == *addr);
                    }
                }
                None
            },
        }
    }

    /// Reads the escrow record at an address, if one exists.
    pub fn get_record(&self, addr: &AccountId) -> (r: Option<EscrowAccount>)
        requires
            self.addrs_unique(),
        ensures
            r == self.record_at(*addr),
    {
        proof {
            lemma_map_by_key_props(self.records@);
        }
        match self.record_index(addr) {
            Some(i) => Some(self.records[i]),
            None => {
                proof {
                    if self.record_map().contains_key(*addr) {
                        let i = choose|i: int|
                            0 <= i < self.records@.len() && self.records@[i].key() == *addr;
                        assert(self.records@[i].addr == *addr);
                    }
                }
                None
            },
        }
    }

    /// Overwrites the token account at `addr` (which must exist) with `v`
    /// (which must keep the address).
    pub(crate) fn put_token(&mut self, addr: &AccountId, v: TokenAccount)
        requires
            old(self).addrs_unique(),
            old(self).token_map().contains_key(*addr),
            v.addr == *addr,
        ensures
            final(self).addrs_unique(),
            final(self).token_map() == old(self).token_map().insert(*addr, v),
            final(self).records@ == old(self).records@,
            final(self).program_id == old(self).program_id,
    {
        proof {
            lemma_map_by_key_props(self.tokens@);
        }
        match self.token_index(addr) {
            Some(i) => {
                proof {
                    lemma_map_by_key_update(self.tokens@, i as int, v);
                }
                self.tokens.set(i, v);
            },
            None => {
                proof {
                    let i = choose|i: int|
                        0 <= i < self.tokens@.len() && self.tokens@[i].key() == *addr;
                    assert(self.tokens@[i].addr == *addr);
                    assert(false);
                }
            },
        }
    }

    /// Adds a token account at a fresh address.
    pub(crate) fn push_token(&mut self, v: TokenAccount)
        requires
            old(self).addrs_unique(),
            !old(self).token_map().contains_key(v.addr),
        ensures
            final(self).addrs_unique(),
            final(self).token_map() == old(self).token_map().insert(v.addr, v),
            final(self).records@ == old(self).records@,
            final(self).program_id == old(self).program_id,
    {
        proof {
            lemma_map_by_key_props(self.tokens@);
            assert forall|i: int| 0 <= i < self.tokens@.len() implies self.tokens@[i].key()
                != v.key() by {
                assert(self.token_map().contains_key(self.tokens@[i].key()));
            }
            lemma_map_by_key_push(self.tokens@, v);
        }
        self.tokens.push(v);
    }

    /// Removes the token account at `addr`, which must exist.
    pub(crate) fn drop_token(&mut self, addr: &AccountId)
        requires
            old(self).addrs_unique(),
            old(self).token_map().contains_key(*addr),
        ensures
            final(self).addrs_unique(),
            final(self).token_map() == old(self).token_map().remove(*addr),
            final(self).records@ == old(self).records@,
            final(self).program_id == old(self).program_id,
    {
        proof {
            lemma_map_by_key_props(self.tokens@);
        }
        match self.token_index(addr) {
            Some(i) => {
                proof {
                    lemma_map_by_key_remove(self.tokens@, i as int);
                }
                let _ = self.tokens.remove(i);
                return ;
            },
            None => {
                proof {
                    let i = choose|i: int|
                        0 <= i < self.tokens@.len() && self.tokens@[i].key() == *addr;
                    assert(self.tokens@[i].addr == *addr);
                    assert(false);
                }
            },
        }
    }

    /// Adds an escrow record at a fresh address.
    pub(crate) fn push_record(&mut self, v: EscrowAccount)
        requires
            old(self).addrs_unique(),
            !old(self).record_map().contains_key(v.addr),
        ensures
            final(self).addrs_unique(),
            final(self).record_map() == old(self).record_map().insert(v.addr, v),
            final(self).tokens@ == old(self).tokens@,
            final(self).program_id == old(self).program_id,
            final(self).records@ == old(self).records@.push(v),
    {
        proof {
            lemma_map_by_key_props(self.records@);
            assert forall|i: int| 0 <= i < self.records@.len() implies self.records@[i].key()
                != v.key() by {
                assert(self.record_map().contains_key(self.records@[i].key()));
            }
            lemma_map_by_key_push(self.records@, v);
        }
        self.records.push(v);
    }

    /// Moves `amount` units from `from` to `to` on the asset ledger,
    /// authorized by `authority` (which must own `from`). Fails exactly as
    /// `transfer_check` says, with no state change.
    pub fn transfer(
        &mut self,
        from: &AccountId,
        to: &AccountId,
        authority: &AccountId,
        amount: u64,
    ) -> (r: Result<(), EscrowError>)
        requires
            old(self).addrs_unique(),
        ensures
            final(self).addrs_unique(),
            final(self).records@ == old(self).records@,
            final(self).program_id == old(self).program_id,
            match r {
                Ok(()) => transfer_check(old(self).token_map(), *from, *to, *authority, amount)
                    is None && final(self).token_map() == transferred(
                    old(self).token_map(),
                    *from,
                    *to,
                    amount,
                ),
                Err(e) => transfer_check(old(self).token_map(), *from, *to, *authority, amount)
                    == Some(e) && final(self).tokens@ == old(self).tokens@,
            },
    {
        proof {
            lemma_map_by_key_props(self.tokens@);
        }
        let fo = self.get_token(from);
        let to_opt = self.get_token(to);
        if fo.is_none() || to_opt.is_none() {
            return Err(EscrowError::ConstraintViolation);
        }
        let f = fo.unwrap();
        let t = to_opt.unwrap();
        if !f.owner.id_eq(authority) {
            return Err(EscrowError::AuthorizationError);
        }
        if !f.mint.id_eq(&t.mint) {
            return Err(EscrowError::ConstraintViolation);
        }
        if f.amount < amount {
            return Err(EscrowError::InsufficientFunds);
        }
        if !from.id_eq(to) && amount > u64::MAX - t.amount {
            return Err(EscrowError::InsufficientFunds);
        }
        let f2 = TokenAccount { amount: f.amount - amount, ..f };
        self.put_token(from, f2);
        let t1 = self.get_token(to).unwrap();
        proof {
            if *from == *to {
                assert(t1.amount == f.amount - amount);
            } else {
                assert(t1.amount == t.amount);
            }
        }
        let t2 = TokenAccount { amount: t1.amount + amount, ..t1 };
        self.put_token(to, t2);
        Ok(())
    }

    /// The checked-transfer form: as `transfer`, but first validates that
    /// the source account indeed holds the asset the caller names. Fails
    /// exactly as `transfer_checked_check` says, with no state change.
    pub fn transfer_checked(
        &mut self,
        from: &AccountId,
        to: &AccountId,
        authority: &AccountId,
        amount: u64,
        expected_mint: &AccountId,
    ) -> (r: Result<(), EscrowError>)
        requires
            old(self).addrs_unique(),
        ensures
            final(self).addrs_unique(),
            final(self).records@ == old(self).records@,
            final(self).program_id == old(self).program_id,
            match r {
                Ok(()) => transfer_checked_check(
                    old(self).token_map(),
                    *from,
                    *to,
                    *authority,
                    amount,
                    *expected_mint,
                ) is None && final(self).token_map() == transferred(
                    old(self).token_map(),
                    *from,
                    *to,
                    amount,
                ),
                Err(e) => transfer_checked_check(
                    old(self).token_map(),
                    *from,
                    *to,
                    *authority,
                    amount,
                    *expected_mint,
                ) == Some(e) && final(self).tokens@ == old(self).tokens@,
            },
    {
        match self.get_token(from) {
            Some(f) => {
                if !f.mint.id_eq(expected_mint) {
                    return Err(EscrowError::ConstraintViolation);
                }
            },
            None => {},
        }
        self.transfer(from, to, authority, amount)
    }

    /// Closes the empty token account `account` under `authority`; the
    /// account's reservation returns to `destination` (reservations are not
    /// part of this model's balances). Fails exactly as `close_check` says,
    /// with no state change.
    pub fn close_account(
        &mut self,
        account: &AccountId,
        _destination: &AccountId,
        authority: &AccountId,
    ) -> (r: Result<(), EscrowError>)
        requires
            old(self).addrs_unique(),
        ensures
            final(self).addrs_unique(),
            final(self).records@ == old(self).records@,
            final(self).program_id == old(self).program_id,
            match r {
                Ok(()) => close_check(old(self).token_map(), *account, *authority) is None
                    && final(self).token_map() == old(self).token_map().remove(*account),
                Err(e) => close_check(old(self).token_map(), *account, *authority) == Some(e)
                    && final(self).tokens@ == old(self).tokens@,
            },
    {
        let acc = self.get_token(account);
        if acc.is_none() {
            return Err(EscrowError::ConstraintViolation);
        }
        let a = acc.unwrap();
        if !a.owner.id_eq(authority) {
            return Err(EscrowError::AuthorizationError);
        }
        if a.amount != 0 {
            return Err(EscrowError::ConstraintViolation);
        }
        self.drop_token(account);
        Ok(())
    }

    /// Bootstraps the associated holding account for `owner` and `mint`,
    /// funded with `amount` units by the asset's mint authority. Fails if
    /// the account already exists.
    pub fn create_token_account(
        &mut self,
        owner: &AccountId,
        mint: &AccountId,
        amount: u64,
    ) -> (r: Result<AccountId, EscrowError>)
        requires
            old(self).addrs_unique(),
        ensures
            final(self).addrs_unique(),
            final(self).records@ == old(self).records@,
            final(self).program_id == old(self).program_id,
            match r {
                Ok(a) => a == ata_of(*owner, *mint) && !old(self).token_map().contains_key(a)
                    && final(self).token_map() == old(self).token_map().insert(
                    a,
                    TokenAccount { addr: a, mint: *mint, owner: *owner, amount },
                ),
                Err(e) => e == EscrowError::ConstraintViolation && old(
                    self,
                ).token_map().contains_key(ata_of(*owner, *mint)) && final(self).tokens@ == old(
                    self,
                ).tokens@,
            },
    {
        let a = crate::authority::find_holding_address(owner, mint);
        match self.get_token(&a) {
            Some(_) => Err(EscrowError::ConstraintViolation),
            None => {
                self.push_token(TokenAccount { addr: a, mint: *mint, owner: *owner, amount });
                Ok(a)
            },
        }
    }

    /// Removes the escrow record at `addr`, which must exist.
    pub(crate) fn drop_record(&mut self, addr: &AccountId)
        requires
            old(self).addrs_unique(),
            old(self).record_map().contains_key(*addr),
        ensures
            final(self).addrs_unique(),
            final(self).record_map() == old(self).record_map().remove(*addr),
            final(self).tokens@ == old(self).tokens@,
            final(self).program_id == old(self).program_id,
            exists|i: int|
                0 <= i < old(self).records@.len() && old(self).records@[i].addr == *addr
                    && final(self).records@ == old(self).records@.remove(i),
    {
        proof {
            lemma_map_by_key_props(self.records@);
        }
        match self.record_index(addr) {
            Some(i) => {
                proof {
                    lemma_map_by_key_remove(self.records@, i as int);
                }
                let _ = self.records.remove(i);
                return ;
            },
            None => {
                proof {
                    let i = choose|i: int|
                        0 <= i < self.records@.len() && self.records@[i].key() == *addr;
                    assert(self.records@[i].addr == *addr);
                    assert(false);
                }
            },
        }
    }
}

} // verus!
