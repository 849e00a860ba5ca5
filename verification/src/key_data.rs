//! The key record of one token.

use crate::entries::{
    as_map, distinct_keys, has_key, lemma_absent, lemma_count, lemma_empty, lemma_entry,
    lemma_push, lemma_remove, lemma_update,
};
use crate::model::KeyDataView;
use crate::near::same_account;
use near_sdk::AccountId;
use vstd::prelude::*;

verus! {

/// The key record of one token: the key epoch it signs with, and the
/// accounts that its owner has approved.
#[derive(Clone, Debug)]
pub struct KeyData {
    /// One pair for each approved account, with the identifier of its
    /// approval. No account occurs twice.
    pub approvals: Vec<(AccountId, u32)>,
    /// The key epoch assigned at mint time.
    pub key_version: u32,
}

impl View for KeyData {
    type V = KeyDataView;

    open spec fn view(&self) -> KeyDataView {
        KeyDataView { key_version: self.key_version, approvals: as_map(self.approvals@) }
    }
}

impl KeyData {
    /// No account is approved twice.
    pub open spec fn wf(&self) -> bool {
        distinct_keys(self.approvals@)
    }

    /// A record without approvals.
    pub fn new(key_version: u32) -> (r: KeyData)
        ensures
            r.wf(),
            r@ == KeyDataView::fresh(key_version),
    {
        proof {
            lemma_empty::<AccountId, u32>();
        }
        KeyData { approvals: Vec::new(), key_version }
    }

    /// Whether the record is well formed; `wf` as a run-time test.
    pub fn is_wf(&self) -> (r: bool)
        ensures
            r == self.wf(),
    {
        let mut j: usize = 0;
        while j < self.approvals.len()
            invariant
                j <= self.approvals.len(),
                forall|a: int, b: int|
                    0 <= a < b < j ==> self.approvals[a].0 != self.approvals[b].0,
            decreases self.approvals.len() - j,
        {
            let mut i: usize = 0;
            while i < j
                invariant
                    i <= j < self.approvals.len(),
                    forall|a: int| 0 <= a < i ==> self.approvals[a].0 != self.approvals[j as int].0,
                decreases j - i,
            {
                if same_account(&self.approvals[i].0, &self.approvals[j].0) {
                    return false;
                }
                i += 1;
            }
            j += 1;
        }
        true
    }

    fn position(&self, account: &AccountId) -> (r: Option<usize>)
        ensures
            match r {
                Some(i) => i < self.approvals.len() && self.approvals[i as int].0 == *account,
                None => !has_key(self.approvals@, *account),
            },
    {
        let mut i: usize = 0;
        while i < self.approvals.len()
            invariant
                i <= self.approvals.len(),
                forall|j: int| 0 <= j < i ==> self.approvals[j].0 != *account,
            decreases self.approvals.len() - i,
        {
            if same_account(&self.approvals[i].0, account) {
                return Some(i);
            }
            i += 1;
        }
        proof {
            lemma_absent(self.approvals@, *account);
        }
        None
    }

    /// The identifier under which `account` is approved, if it is.
    pub fn approval_id_for(&self, account: &AccountId) -> (r: Option<u32>)
        requires
            self.wf(),
        ensures
            r == self@.approval(*account),
    {
        match self.position(account) {
            Some(i) => {
                proof {
                    lemma_entry(self.approvals@, i as int);
                }
                Some(self.approvals[i].1)
            },
            None => None,
        }
    }

    /// Approves `account` under `id`, in place of any approval it had.
    pub fn approve(&mut self, account: &AccountId, id: u32)
        requires
            old(self).wf(),
        ensures
            final(self).wf(),
            final(self)@ == old(self)@.grant(*account, id),
    {
        match self.position(account) {
            Some(i) => {
                proof {
                    lemma_update(self.approvals@, i as int, id);
                }
                self.approvals.set(i, (account.clone(), id));
            },
            None => {
                proof {
                    lemma_push(self.approvals@, *account, id);
                }
                self.approvals.push((account.clone(), id));
            },
        }
    }

    /// Removes the approval of `account` and returns its identifier, if it
    /// had one.
    pub fn revoke(&mut self, account: &AccountId) -> (r: Option<u32>)
        requires
            old(self).wf(),
        ensures
            final(self).wf(),
            r == old(self)@.approval(*account),
            final(self)@ == old(self)@.withdraw(*account),
    {
        match self.position(account) {
            Some(i) => {
                proof {
                    lemma_entry(self.approvals@, i as int);
                    lemma_remove(self.approvals@, i as int);
                }
                let removed = self.approvals.remove(i);
                Some(removed.1)
            },
            None => {
                assert(self@.approvals.remove(*account) =~= self@.approvals);
                None
            },
        }
    }

    /// Removes every approval and returns how many there were.
    pub fn revoke_all(&mut self) -> (r: u64)
        requires
            old(self).wf(),
        ensures
            final(self).wf(),
            r == old(self)@.approvals.len(),
            final(self)@ == old(self)@.clear(),
    {
        proof {
            lemma_count(self.approvals@);
            lemma_empty::<AccountId, u32>();
        }
        let n = self.approvals.len() as u64;
        self.approvals.clear();
        n
    }
}

} // verus!
