use vstd::prelude::*;
use crate::error::ContractError;
use crate::table::{entries_map, keys_unique, lemma_contains_iff, lemma_lookup, lemma_push, lemma_update};

verus! {

/// Configuration: the principals allowed to mutate anything, and the minimum
/// number of seconds between two sends of the same (chain, nonce).
pub struct State {
    pub owners: Vec<String>,
    pub retry_delay: u64,
}

/// The two remote job identifiers kept for a destination chain.
pub struct ChainSetting {
    pub compass_job_id: String,
    pub main_job_id: String,
}

impl ChainSetting {
    pub fn duplicate(&self) -> (r: ChainSetting)
        ensures
            r == *self,
    {
        ChainSetting {
            compass_job_id: self.compass_job_id.clone(),
            main_job_id: self.main_job_id.clone(),
        }
    }
}

/// Where the incentive and locking components live.
pub struct IncentivesSetting {
    pub incentivizer: String,
    pub padex: String,
    pub vepades: String,
}

/// Whether `who` is one of `owners`.
pub open spec fn is_owner_in(owners: Seq<String>, who: Seq<char>) -> bool {
    exists|i: int| 0 <= i < owners.len() && owners[i]@ == who
}

/// The owner list after each of `added` is appended unless already present.
pub open spec fn with_owners(owners: Seq<Seq<char>>, added: Seq<Seq<char>>) -> Seq<Seq<char>>
    decreases added.len(),
{
    if added.len() == 0 {
        owners
    } else {
        let before = with_owners(owners, added.drop_last());
        if before.contains(added.last()) {
            before
        } else {
            before.push(added.last())
        }
    }
}

impl State {
    pub open spec fn owners_view(&self) -> Seq<Seq<char>> {
        self.owners@.map_values(|o: String| o@)
    }

    pub open spec fn is_owner(&self, who: Seq<char>) -> bool {
        is_owner_in(self.owners@, who)
    }

    pub fn instantiate(owners: Vec<String>, retry_delay: u64) -> (r: State)
        ensures
            r.owners@ == owners@,
            r.retry_delay == retry_delay,
    {
        State { owners, retry_delay }
    }

    pub fn contains_owner(&self, who: &String) -> (r: bool)
        ensures
            r == self.is_owner(who@),
    {
        let mut i: usize = 0;
        while i < self.owners.len()
            invariant
                i <= self.owners@.len(),
                forall|j: int| 0 <= j < i ==> self.owners@[j]@ != who@,
            decreases self.owners@.len() - i,
        {
            if self.owners[i] == *who {
                return true;
            }
            i = i + 1;
        }
        false
    }

    /// The guard in front of every mutating operation.
    pub fn require_owner(&self, sender: &String) -> (r: Result<(), ContractError>)
        ensures
            r.is_ok() == self.is_owner(sender@),
            r.is_err() ==> r == Err::<(), ContractError>(ContractError::Unauthorized),
    {
        if self.contains_owner(sender) {
            Ok(())
        } else {
            Err(ContractError::Unauthorized)
        }
    }

    /// Appends each of `owners` that is not an owner yet, in order.
    pub fn add_owners(&mut self, owners: &Vec<String>)
        ensures
            final(self).owners_view() == with_owners(old(self).owners_view(), owners@.map_values(
                |o: String| o@,
            )),
            final(self).retry_delay == old(self).retry_delay,
    {
        let ghost added = owners@.map_values(|o: String| o@);
        let mut i: usize = 0;
        while i < owners.len()
            invariant
                i <= owners@.len(),
                added == owners@.map_values(|o: String| o@),
                self.owners_view() == with_owners(old(self).owners_view(), added.subrange(0, i as int)),
                self.retry_delay == old(self).retry_delay,
            decreases owners@.len() - i,
        {
            let o = &owners[i];
            assert(added.subrange(0, i + 1).drop_last() =~= added.subrange(0, i as int));
            let present = self.contains_owner(o);
            proof {
                let before = self.owners_view();
                if present {
                    let j = choose|j: int| 0 <= j < self.owners@.len() && self.owners@[j]@ == o@;
                    assert(before[j] == o@);
                } else {
                    assert forall|j: int| 0 <= j < before.len() implies before[j] != o@ by {
                        assert(before[j] == self.owners@[j]@);
                    }
                }
            }
            if !present {
                self.owners.push(o.clone());
                assert(self.owners_view() =~= with_owners(old(self).owners_view(), added.subrange(0, i as int)).push(o@));
            }
            i = i + 1;
        }
        assert(added.subrange(0, i as int) =~= added);
    }

    /// Removes every occurrence of `owner`; refuses where it is not an owner.
    pub fn remove_owner(&mut self, owner: &String) -> (r: Result<(), ContractError>)
        ensures
            r.is_ok() == old(self).is_owner(owner@),
            r.is_err() ==> r == Err::<(), ContractError>(ContractError::OwnerNotFound)
                && *final(self) == *old(self),
            r.is_ok() ==> final(self).owners_view() == old(self).owners_view().filter(
                |o: Seq<char>| o != owner@,
            ) && final(self).retry_delay == old(self).retry_delay,
    {
        if !self.contains_owner(owner) {
            return Err(ContractError::OwnerNotFound);
        }
        let ghost pred: spec_fn(Seq<char>) -> bool = |o: Seq<char>| o != owner@;
        let mut kept: Vec<String> = Vec::new();
        let mut i: usize = 0;
        while i < self.owners.len()
            invariant
                i <= self.owners@.len(),
                pred == (|o: Seq<char>| o != owner@),
                kept@.map_values(|o: String| o@) == self.owners_view().subrange(0, i as int).filter(pred),
            decreases self.owners@.len() - i,
        {
            let ghost before = kept@.map_values(|o: String| o@);
            let ghost s = self.owners_view().subrange(0, i + 1);
            proof {
                assert(s.drop_last() =~= self.owners_view().subrange(0, i as int));
                assert(s.last() == self.owners@[i as int]@);
            }
            if self.owners[i] != *owner {
                kept.push(self.owners[i].clone());
                assert(kept@.map_values(|o: String| o@) =~= before.push(self.owners@[i as int]@));
            }
            proof {
                reveal(Seq::filter);
                if pred(s.last()) {
                    assert(s.filter(pred) == s.drop_last().filter(pred).push(s.last()));
                } else {
                    assert(s.filter(pred) == s.drop_last().filter(pred));
                }
                assert(kept@.map_values(|o: String| o@) =~= s.filter(pred));
            }
            i = i + 1;
        }
        assert(self.owners_view().subrange(0, i as int) =~= self.owners_view());
        self.owners = kept;
        Ok(())
    }
}

/// Chain settings per destination-chain identifier.
pub struct ChainSettings {
    entries: Vec<(String, ChainSetting)>,
}

impl ChainSettings {
    pub closed spec fn entries_view(&self) -> Seq<(Seq<char>, ChainSetting)> {
        self.entries@.map_values(|e: (String, ChainSetting)| (e.0@, e.1))
    }

    pub closed spec fn view(&self) -> Map<Seq<char>, ChainSetting> {
        entries_map(self.entries_view())
    }

    pub closed spec fn wf(&self) -> bool {
        keys_unique(self.entries_view())
    }

    pub fn new() -> (r: ChainSettings)
        ensures
            r.wf(),
            r@ == Map::<Seq<char>, ChainSetting>::empty(),
    {
        let r = ChainSettings { entries: Vec::new() };
        assert(r.entries_view() =~= Seq::empty());
        r
    }

    fn find(&self, chain_id: &String) -> (r: Option<usize>)
        requires
            self.wf(),
        ensures
            match r {
                Some(i) => i < self.entries@.len() && self.entries_view()[i as int].0 == chain_id@,
                None => !self@.contains_key(chain_id@),
            },
    {
        let mut i: usize = 0;
        while i < self.entries.len()
            invariant
                i <= self.entries@.len(),
                forall|j: int| 0 <= j < i ==> self.entries_view()[j].0 != chain_id@,
            decreases self.entries@.len() - i,
        {
            if self.entries[i].0 == *chain_id {
                return Some(i);
            }
            i = i + 1;
        }
        proof {
            lemma_contains_iff(self.entries_view(), chain_id@);
        }
        None
    }

    /// The setting stored for `chain_id`, if any.
    pub fn get(&self, chain_id: &String) -> (r: Option<ChainSetting>)
        requires
            self.wf(),
        ensures
            r == (if self@.contains_key(chain_id@) {
                Some(self@[chain_id@])
            } else {
                None
            }),
    {
        match self.find(chain_id) {
            Some(i) => {
                proof {
                    lemma_lookup(self.entries_view(), i as int);
                }
                Some(self.entries[i].1.duplicate())
            },
            None => None,
        }
    }

    /// Stores `setting` for `chain_id`, replacing what was there.
    pub fn set(&mut self, chain_id: &String, setting: ChainSetting)
        requires
            old(self).wf(),
        ensures
            final(self).wf(),
            final(self)@ == old(self)@.insert(chain_id@, setting),
    {
        match self.find(chain_id) {
            Some(i) => {
                proof {
                    lemma_update(self.entries_view(), i as int, setting);
                }
                let key = self.entries[i].0.clone();
                self.entries.set(i, (key, setting));
                assert(self.entries_view() =~= old(self).entries_view().update(
                    i as int,
                    (old(self).entries_view()[i as int].0, setting),
                ));
            },
            None => {
                proof {
                    lemma_push(self.entries_view(), chain_id@, setting);
                }
                self.entries.push((chain_id.clone(), setting));
                assert(self.entries_view() =~= old(self).entries_view().push((chain_id@, setting)));
            },
        }
    }
}

} // verus!
