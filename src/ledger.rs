use vstd::prelude::*;
use crate::table::{entries_map, keys_unique, lemma_contains_iff, lemma_lookup, lemma_push, lemma_update};

verus! {

/// One ledger record: what `beneficiary` holds of `asset`.
pub struct LedgerEntry {
    pub beneficiary: String,
    pub asset: String,
    pub amount: u128,
}

/// Balances per (beneficiary, asset identifier). An entry is created by the
/// first credit and afterwards only changed, never removed.
pub struct Ledger {
    entries: Vec<LedgerEntry>,
}

pub type LedgerKey = (Seq<char>, Seq<char>);

pub open spec fn entry_view(e: LedgerEntry) -> (LedgerKey, u128) {
    ((e.beneficiary@, e.asset@), e.amount)
}

/// The balance that a ledger map records for a key; an absent key holds zero.
pub open spec fn balance_in(m: Map<LedgerKey, u128>, k: LedgerKey) -> nat {
    if m.contains_key(k) {
        m[k] as nat
    } else {
        0
    }
}

impl Ledger {
    pub closed spec fn entries_view(&self) -> Seq<(LedgerKey, u128)> {
        self.entries@.map_values(|e: LedgerEntry| entry_view(e))
    }

    pub closed spec fn view(&self) -> Map<LedgerKey, u128> {
        entries_map(self.entries_view())
    }

    pub closed spec fn wf(&self) -> bool {
        keys_unique(self.entries_view())
    }

    pub open spec fn balance_of(&self, beneficiary: Seq<char>, asset: Seq<char>) -> nat {
        balance_in(self@, (beneficiary, asset))
    }

    pub fn new() -> (r: Ledger)
        ensures
            r.wf(),
            r@ == Map::<LedgerKey, u128>::empty(),
    {
        let r = Ledger { entries: Vec::new() };
        assert(r.entries_view() =~= Seq::empty());
        r
    }

    fn find(&self, beneficiary: &String, asset: &String) -> (r: Option<usize>)
        requires
            self.wf(),
        ensures
            match r {
                Some(i) => i < self.entries@.len() && self.entries_view()[i as int].0 == (
                beneficiary@, asset@),
                None => !self@.contains_key((beneficiary@, asset@)),
            },
    {
        let mut i: usize = 0;
        while i < self.entries.len()
            invariant
                i <= self.entries@.len(),
                forall|j: int| 0 <= j < i ==> self.entries_view()[j].0 != (beneficiary@, asset@),
            decreases self.entries@.len() - i,
        {
            let e = &self.entries[i];
            if e.beneficiary == *beneficiary && e.asset == *asset {
                return Some(i);
            }
            i = i + 1;
        }
        proof {
            lemma_contains_iff(self.entries_view(), (beneficiary@, asset@));
        }
        None
    }

    /// The recorded balance; zero where nothing was ever credited.
    pub fn balance(&self, beneficiary: &String, asset: &String) -> (r: u128)
        requires
            self.wf(),
        ensures
            r == self.balance_of(beneficiary@, asset@),
    {
        match self.find(beneficiary, asset) {
            Some(i) => {
                proof {
                    lemma_lookup(self.entries_view(), i as int);
                }
                self.entries[i].amount
            },
            None => 0,
        }
    }

    /// Sets the balance of a key, creating its entry if there is none.
    fn set(&mut self, beneficiary: &String, asset: &String, amount: u128)
        requires
            old(self).wf(),
        ensures
            final(self).wf(),
            final(self)@ == old(self)@.insert((beneficiary@, asset@), amount),
    {
        match self.find(beneficiary, asset) {
            Some(i) => {
                proof {
                    lemma_update(self.entries_view(), i as int, amount);
                }
                let e = LedgerEntry {
                    beneficiary: self.entries[i].beneficiary.clone(),
                    asset: self.entries[i].asset.clone(),
                    amount,
                };
                self.entries.set(i, e);
                assert(self.entries_view() =~= old(self).entries_view().update(
                    i as int,
                    (old(self).entries_view()[i as int].0, amount),
                ));
            },
            None => {
                proof {
                    lemma_push(self.entries_view(), (beneficiary@, asset@), amount);
                }
                let e = LedgerEntry {
                    beneficiary: beneficiary.clone(),
                    asset: asset.clone(),
                    amount,
                };
                self.entries.push(e);
                assert(self.entries_view() =~= old(self).entries_view().push(
                    ((beneficiary@, asset@), amount),
                ));
            },
        }
    }
}

} // verus!

verus! {

/// The ledger map after `amount` is credited to key `k`.
pub open spec fn credited(m: Map<LedgerKey, u128>, k: LedgerKey, amount: nat) -> Map<
    LedgerKey,
    u128,
> {
    m.insert(k, (balance_in(m, k) + amount) as u128)
}

/// The ledger map after `amount` is taken from key `k`, stopping at zero.
pub open spec fn debited_floor(m: Map<LedgerKey, u128>, k: LedgerKey, amount: nat) -> Map<
    LedgerKey,
    u128,
> {
    m.insert(
        k,
        if balance_in(m, k) >= amount {
            (balance_in(m, k) - amount) as u128
        } else {
            0u128
        },
    )
}

/// The ledger map after a checked debit of `amount` from key `k` that succeeded.
pub open spec fn debited(m: Map<LedgerKey, u128>, k: LedgerKey, amount: nat) -> Map<
    LedgerKey,
    u128,
> {
    m.insert(k, (balance_in(m, k) - amount) as u128)
}

impl Ledger {
    /// Adds `amount` to the balance of (beneficiary, asset).
    pub fn credit(&mut self, beneficiary: &String, asset: &String, amount: u128)
        requires
            old(self).wf(),
            old(self).balance_of(beneficiary@, asset@) + amount <= u128::MAX,
        ensures
            final(self).wf(),
            final(self)@ == credited(old(self)@, (beneficiary@, asset@), amount as nat),
    {
        let b = self.balance(beneficiary, asset);
        self.set(beneficiary, asset, b + amount);
    }

    /// Takes `amount` from the balance of (beneficiary, asset), or all of it
    /// where the balance is smaller.
    pub fn debit_floor(&mut self, beneficiary: &String, asset: &String, amount: u128)
        requires
            old(self).wf(),
        ensures
            final(self).wf(),
            final(self)@ == debited_floor(old(self)@, (beneficiary@, asset@), amount as nat),
    {
        let b = self.balance(beneficiary, asset);
        let n: u128 = if b >= amount {
            b - amount
        } else {
            0
        };
        self.set(beneficiary, asset, n);
    }

    /// Takes `amount` from the balance of (beneficiary, asset); refuses, and
    /// changes nothing, where the balance is smaller than `amount`.
    pub fn debit_checked(&mut self, beneficiary: &String, asset: &String, amount: u128) -> (r:
        Result<(), crate::error::ContractError>)
        requires
            old(self).wf(),
        ensures
            final(self).wf(),
            r.is_err() <==> old(self).balance_of(beneficiary@, asset@) < amount,
            r.is_err() ==> r == Err::<(), _>(crate::error::ContractError::InsufficientLiquidity)
                && *final(self) == *old(self),
            r.is_ok() ==> final(self)@ == debited(old(self)@, (beneficiary@, asset@), amount as nat),
    {
        let b = self.balance(beneficiary, asset);
        if b < amount {
            return Err(crate::error::ContractError::InsufficientLiquidity);
        }
        self.set(beneficiary, asset, b - amount);
        Ok(())
    }
}

/// Crediting an amount and then debit-checking the same amount succeeds and
/// leaves every balance as it was.
pub proof fn lemma_credit_then_debit_round_trip(
    m: Map<LedgerKey, u128>,
    k: LedgerKey,
    amount: nat,
)
    requires
        balance_in(m, k) + amount <= u128::MAX,
    ensures
        balance_in(credited(m, k, amount), k) >= amount,
        forall|j: LedgerKey|
            balance_in(debited(credited(m, k, amount), k, amount), j) == balance_in(m, j),
{
    let c = credited(m, k, amount);
    assert(balance_in(c, k) == balance_in(m, k) + amount);
    assert forall|j: LedgerKey| balance_in(debited(c, k, amount), j) == balance_in(m, j) by {
        if j != k {
            assert(debited(c, k, amount).contains_key(j) == m.contains_key(j));
        }
    }
}

} // verus!
