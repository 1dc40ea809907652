use vstd::prelude::*;
use crate::error::ContractError;
use crate::table::{entries_map, keys_unique, lemma_contains_iff, lemma_lookup, lemma_push, lemma_update};

verus! {

/// Key of an outbound attempt: destination chain and nonce.
pub type AttemptKey = (Seq<char>, u128);

/// Last-attempt times, in seconds, per (destination chain, nonce).
pub struct RetryGate {
    entries: Vec<(String, u128, u64)>,
}

/// Whether an attempt at time `now` is let through, given the recorded
/// attempts and the retry delay in seconds.
pub open spec fn attempt_allowed(m: Map<AttemptKey, u64>, k: AttemptKey, now: u64, retry_delay: u64) -> bool {
    !m.contains_key(k) || now >= m[k] + retry_delay
}

impl RetryGate {
    pub closed spec fn entries_view(&self) -> Seq<(AttemptKey, u64)> {
        self.entries@.map_values(|e: (String, u128, u64)| ((e.0@, e.1), e.2))
    }

    pub closed spec fn view(&self) -> Map<AttemptKey, u64> {
        entries_map(self.entries_view())
    }

    pub closed spec fn wf(&self) -> bool {
        keys_unique(self.entries_view())
    }

    pub fn new() -> (r: RetryGate)
        ensures
            r.wf(),
            r@ == Map::<AttemptKey, u64>::empty(),
    {
        let r = RetryGate { entries: Vec::new() };
        assert(r.entries_view() =~= Seq::empty());
        r
    }

    fn find(&self, chain_id: &String, nonce: u128) -> (r: Option<usize>)
        requires
            self.wf(),
        ensures
            match r {
                Some(i) => i < self.entries@.len() && self.entries_view()[i as int].0 == (
                chain_id@, nonce),
                None => !self@.contains_key((chain_id@, nonce)),
            },
    {
        let mut i: usize = 0;
        while i < self.entries.len()
            invariant
                i <= self.entries@.len(),
                forall|j: int| 0 <= j < i ==> self.entries_view()[j].0 != (chain_id@, nonce),
            decreases self.entries@.len() - i,
        {
            if self.entries[i].1 == nonce && self.entries[i].0 == *chain_id {
                return Some(i);
            }
            i = i + 1;
        }
        proof {
            lemma_contains_iff(self.entries_view(), (chain_id@, nonce));
        }
        None
    }

    /// The recorded time of the last attempt for (chain, nonce), if any.
    pub fn last_attempt(&self, chain_id: &String, nonce: u128) -> (r: Option<u64>)
        requires
            self.wf(),
        ensures
            r == (if self@.contains_key((chain_id@, nonce)) {
                Some(self@[(chain_id@, nonce)])
            } else {
                None
            }),
    {
        match self.find(chain_id, nonce) {
            Some(i) => {
                proof {
                    lemma_lookup(self.entries_view(), i as int);
                }
                Some(self.entries[i].2)
            },
            None => None,
        }
    }

    /// Lets an attempt through, and stamps it with `now`, where none was made
    /// for (chain, nonce) or the last one is at least `retry_delay` seconds
    /// old; otherwise refuses with `Pending` and records nothing.
    pub fn allow_attempt(&mut self, chain_id: &String, nonce: u128, now: u64, retry_delay: u64) -> (r:
        Result<(), ContractError>)
        requires
            old(self).wf(),
        ensures
            final(self).wf(),
            r.is_ok() == attempt_allowed(old(self)@, (chain_id@, nonce), now, retry_delay),
            r.is_ok() ==> final(self)@ == old(self)@.insert((chain_id@, nonce), now),
            r.is_err() ==> r == Err::<(), ContractError>(ContractError::Pending) && *final(self)
                == *old(self),
    {
        match self.find(chain_id, nonce) {
            Some(i) => {
                proof {
                    lemma_lookup(self.entries_view(), i as int);
                }
                let last = self.entries[i].2;
                if (now as u128) < (last as u128) + (retry_delay as u128) {
                    return Err(ContractError::Pending);
                }
                proof {
                    lemma_update(self.entries_view(), i as int, now);
                }
                let key = self.entries[i].0.clone();
                self.entries.set(i, (key, nonce, now));
                assert(self.entries_view() =~= old(self).entries_view().update(
                    i as int,
                    (old(self).entries_view()[i as int].0, now),
                ));
            },
            None => {
                proof {
                    lemma_push(self.entries_view(), (chain_id@, nonce), now);
                }
                self.entries.push((chain_id.clone(), nonce, now));
                assert(self.entries_view() =~= old(self).entries_view().push(
                    ((chain_id@, nonce), now),
                ));
            },
        }
        Ok(())
    }
}

/// After an attempt for (chain, nonce) is admitted at `first`, a second one at
/// `second` is refused while fewer than `retry_delay` seconds have passed, and
/// admitted, with the stamp moved to `second`, once they have.
pub proof fn lemma_retry_window(
    m: Map<AttemptKey, u64>,
    k: AttemptKey,
    first: u64,
    second: u64,
    retry_delay: u64,
)
    ensures
        second < first + retry_delay ==> !attempt_allowed(m.insert(k, first), k, second, retry_delay),
        second >= first + retry_delay ==> attempt_allowed(m.insert(k, first), k, second, retry_delay)
            && m.insert(k, first).insert(k, second)[k] == second,
{
}

} // verus!
