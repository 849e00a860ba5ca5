//! The contract: the identifier counter, the key-custody service it talks
//! to, and the key record of every token.

use crate::calls::{
    ApprovalNotice, BurnedToken, MintCall, MintCommit, PublicKeyQuery, Refund, RevocationNotice,
    SignCall, SignRequest, SignSettlement,
};
use crate::entries::{
    as_map, distinct_keys, has_key, lemma_absent, lemma_empty, lemma_entry, lemma_push,
    lemma_update,
};
use crate::error::Error;
use crate::key_data::KeyData;
use crate::model::{
    approve_answer, burn_answer, commit_answer, grant_answer, lemma_burn_refusal_stands,
    mint_answer, owner_answer, owner_only, reconcile_answer, reconcile_state, sign_answer,
    KeyDataView, State,
};
use crate::near::same_account;
use crate::token_id::{
    decimal_text, format_token_id, make_path_string, parse_token_id, path_text, title_text,
    token_of, token_title,
};
use crate::utils::assert_gt_one_yocto_near;
use near_sdk::AccountId;
use near_sdk::PromiseError;
use near_sdk_contract_tools::nft::TokenId;
use vstd::prelude::*;
use vstd::string::StringExecFns;

verus! {

/// The whole state of the contract.
#[derive(Clone, Debug)]
pub struct NftKeyContract {
    /// The next identifier handed out, to a token or to an approval.
    pub next_id: u32,
    /// The key-custody service.
    pub signer_contract_id: AccountId,
    /// One pair for each token minted so far, with its key record. No token
    /// occurs twice.
    pub key_data: Vec<(u32, KeyData)>,
}

/// The key records as the model sees them.
pub open spec fn record_views(records: Seq<(u32, KeyData)>) -> Seq<(u32, KeyDataView)> {
    records.map_values(|e: (u32, KeyData)| (e.0, e.1@))
}

impl View for NftKeyContract {
    type V = State;

    open spec fn view(&self) -> State {
        State {
            next_id: self.next_id,
            signer: self.signer_contract_id,
            keys: as_map(record_views(self.key_data@)),
        }
    }
}

proof fn lemma_record_views(records: Seq<(u32, KeyData)>)
    requires
        distinct_keys(records),
    ensures
        distinct_keys(record_views(records)),
        forall|k: u32| has_key(record_views(records), k) == has_key(records, k),
{
    let views = record_views(records);
    assert forall|i: int, j: int| 0 <= i < j < views.len() implies views[i].0 != views[j].0 by {
        assert(records[i].0 != records[j].0);
    }
    assert forall|k: u32| has_key(views, k) == has_key(records, k) by {
        if has_key(views, k) {
            let i = choose|i: int| 0 <= i < views.len() && (#[trigger] views[i]).0 == k;
            assert(records[i].0 == k);
        }
        if has_key(records, k) {
            let i = choose|i: int| 0 <= i < records.len() && (#[trigger] records[i]).0 == k;
            assert(views[i].0 == k);
        }
    }
}

/// Replacing the record of a token replaces its entry in the model.
proof fn lemma_record_update(records: Seq<(u32, KeyData)>, i: int, data: KeyData)
    requires
        distinct_keys(records),
        0 <= i < records.len(),
    ensures
        distinct_keys(records.update(i, (records[i].0, data))),
        as_map(record_views(records.update(i, (records[i].0, data)))) == as_map(
            record_views(records),
        ).insert(records[i].0, data@),
{
    lemma_record_views(records);
    lemma_update(records, i, data);
    lemma_update(record_views(records), i, data@);
    assert(record_views(records.update(i, (records[i].0, data))) =~= record_views(
        records,
    ).update(i, (records[i].0, data@)));
}

/// Appending the record of a new token adds its entry to the model.
proof fn lemma_record_push(records: Seq<(u32, KeyData)>, token: u32, data: KeyData)
    requires
        distinct_keys(records),
        !has_key(records, token),
    ensures
        distinct_keys(records.push((token, data))),
        as_map(record_views(records.push((token, data)))) == as_map(
            record_views(records),
        ).insert(token, data@),
{
    lemma_record_views(records);
    lemma_push(records, token, data);
    lemma_push(record_views(records), token, data@);
    assert(record_views(records.push((token, data))) =~= record_views(records).push(
        (token, data@),
    ));
}

impl NftKeyContract {
    /// No token has two records, and every record is well formed.
    pub open spec fn wf(&self) -> bool {
        &&& distinct_keys(self.key_data@)
        &&& forall|i: int| 0 <= i < self.key_data.len() ==> (#[trigger] self.key_data[i]).1.wf()
    }

    /// Whether the state is well formed; `wf` as a run-time test, for state
    /// that comes from outside.
    pub fn is_wf(&self) -> (r: bool)
        ensures
            r == self.wf(),
    {
        let mut j: usize = 0;
        while j < self.key_data.len()
            invariant
                j <= self.key_data.len(),
                forall|a: int, b: int| 0 <= a < b < j ==> self.key_data[a].0 != self.key_data[b].0,
                forall|a: int| 0 <= a < j ==> (#[trigger] self.key_data[a]).1.wf(),
            decreases self.key_data.len() - j,
        {
            if !self.key_data[j].1.is_wf() {
                return false;
            }
            let mut i: usize = 0;
            while i < j
                invariant
                    i <= j < self.key_data.len(),
                    forall|a: int| 0 <= a < i ==> self.key_data[a].0 != self.key_data[j as int].0,
                decreases j - i,
            {
                if self.key_data[i].0 == self.key_data[j].0 {
                    return false;
                }
                i += 1;
            }
            j += 1;
        }
        true
    }

    /// A contract without tokens that talks to the given custody service.
    pub fn new(signer_contract_id: AccountId) -> (r: NftKeyContract)
        ensures
            r.wf(),
            r@ == State::init(signer_contract_id),
    {
        proof {
            lemma_empty::<u32, KeyDataView>();
            assert(record_views(Seq::<(u32, KeyData)>::empty()) =~= Seq::<
                (u32, KeyDataView),
            >::empty());
        }
        NftKeyContract { next_id: 0, signer_contract_id, key_data: Vec::new() }
    }

    /// Points the contract at another custody service.
    pub fn set_signer_contract_id(&mut self, account_id: AccountId)
        ensures
            final(self).wf() == old(self).wf(),
            final(self)@ == old(self)@.retarget(account_id),
            final(self).key_data == old(self).key_data,
            final(self).next_id == old(self).next_id,
    {
        self.signer_contract_id = account_id;
    }

    /// The custody service that the contract talks to.
    pub fn get_signer_contract_id(&self) -> (r: &AccountId)
        ensures
            *r == self@.signer,
    {
        &self.signer_contract_id
    }

    fn find_record(&self, token: u32) -> (r: Option<usize>)
        requires
            self.wf(),
        ensures
            match r {
                Some(i) => {
                    &&& i < self.key_data.len()
                    &&& self.key_data[i as int].0 == token
                    &&& self@.has_token(token)
                    &&& self@.keys[token] == self.key_data[i as int].1@
                },
                None => !self@.has_token(token),
            },
    {
        let mut i: usize = 0;
        while i < self.key_data.len()
            invariant
                self.wf(),
                i <= self.key_data.len(),
                forall|j: int| 0 <= j < i ==> (#[trigger] self.key_data[j]).0 != token,
            decreases self.key_data.len() - i,
        {
            if self.key_data[i].0 == token {
                proof {
                    lemma_record_views(self.key_data@);
                    lemma_entry(record_views(self.key_data@), i as int);
                }
                return Some(i);
            }
            i += 1;
        }
        proof {
            lemma_record_views(self.key_data@);
            lemma_absent(self.key_data@, token);
        }
        None
    }

    /// Authorises a signature request and says what to send to the
    /// key-custody service.
    ///
    /// The request needs an escrow of at least one unit. It is granted to
    /// the owner of the token, and to an account that presents the
    /// identifier of an approval it holds on the token. The contract state
    /// does not change.
    pub fn ckt_sign_hash(
        &self,
        predecessor: &AccountId,
        owner: &Option<AccountId>,
        attached_deposit: u128,
        token_id: TokenId,
        path: Option<String>,
        payload: Vec<u8>,
        approval_id: Option<u32>,
    ) -> (r: Result<SignCall, Error>)
        requires
            self.wf(),
        ensures
            match sign_answer(
                self@,
                *predecessor,
                *owner,
                attached_deposit,
                token_id@,
                approval_id,
            ) {
                Ok(key_version) => {
                    &&& r matches Ok(call)
                    &&& call.signer == self@.signer
                    &&& call.deposit == attached_deposit
                    &&& call.request.payload == payload
                    &&& call.request.path@ == path_text(token_id@, text_or_empty(path))
                    &&& call.request.key_version == key_version
                },
                Err(e) => r matches Err(x) && x == e,
            },
    {
        match assert_gt_one_yocto_near(attached_deposit) {
            Ok(()) => {},
            Err(e) => {
                return Err(e);
            },
        }
        let id = match parse_token_id(token_id.as_str()) {
            Some(id) => id,
            None => {
                return Err(Error::NotFound);
            },
        };
        let path = text_or_default(path);
        let i = match self.find_record(id) {
            Some(i) => i,
            None => {
                return Err(Error::NotFound);
            },
        };
        let key_data = &self.key_data[i].1;
        if !is_owner(predecessor, owner) {
            let held = key_data.approval_id_for(predecessor);
            let presented = match (held, approval_id) {
                (Some(actual), Some(expected)) => actual == expected,
                _ => false,
            };
            if !presented {
                return Err(Error::Unauthorized);
            }
        }
        Ok(
            SignCall {
                signer: self.signer_contract_id.clone(),
                deposit: attached_deposit,
                request: SignRequest {
                    payload,
                    path: make_path_string(token_id.as_str(), path.as_str()),
                    key_version: key_data.key_version,
                },
            },
        )
    }

    /// Takes the next identifier off the shared counter.
    fn generate_id(&mut self) -> (r: Result<u32, Error>)
        ensures
            final(self).key_data == old(self).key_data,
            final(self).signer_contract_id == old(self).signer_contract_id,
            match r {
                Ok(id) => {
                    &&& old(self)@.can_reserve()
                    &&& id == old(self).next_id
                    &&& final(self).next_id == id + 1
                },
                Err(e) => {
                    &&& !old(self)@.can_reserve()
                    &&& e == Error::Exhausted
                    &&& final(self).next_id == old(self).next_id
                },
            },
    {
        let id = self.next_id;
        match id.checked_add(1) {
            Some(next) => {
                self.next_id = next;
                Ok(id)
            },
            None => Err(Error::Exhausted),
        }
    }

    /// Approves `account_id` on the token under a new identifier, in place
    /// of any approval it had.
    fn approve(&mut self, token_id: u32, account_id: &AccountId) -> (r: Result<u32, Error>)
        requires
            old(self).wf(),
        ensures
            final(self).wf(),
            r == grant_answer(old(self)@, token_id),
            r is Ok ==> final(self)@ == old(self)@.grant(token_id, *account_id),
            r is Err ==> *final(self) == *old(self),
    {
        if self.next_id == u32::MAX {
            return Err(Error::Exhausted);
        }
        let i = match self.find_record(token_id) {
            Some(i) => i,
            None => {
                return Err(Error::NotFound);
            },
        };
        let approval_id = match self.generate_id() {
            Ok(id) => id,
            Err(e) => {
                return Err(e);
            },
        };
        let ghost before = self.key_data@;
        self.key_data[i].1.approve(account_id, approval_id);
        proof {
            assert(self.key_data@ =~= before.update(
                i as int,
                (token_id, self.key_data[i as int].1),
            ));
            lemma_record_update(before, i as int, self.key_data[i as int].1);
            assert(self@ =~= old(self)@.grant(token_id, *account_id));
        }
        Ok(approval_id)
    }

    /// Removes the approval of `account_id` on the token and returns its
    /// identifier, if there was one.
    fn revoke(&mut self, token_id: u32, account_id: &AccountId) -> (r: Option<u32>)
        requires
            old(self).wf(),
        ensures
            final(self).wf(),
            r == old(self)@.approval(token_id, *account_id),
            final(self)@ == old(self)@.withdraw(token_id, *account_id),
    {
        match self.find_record(token_id) {
            Some(i) => {
                let ghost before = self.key_data@;
                let removed = self.key_data[i].1.revoke(account_id);
                proof {
                    assert(self.key_data@ =~= before.update(
                        i as int,
                        (token_id, self.key_data[i as int].1),
                    ));
                    lemma_record_update(before, i as int, self.key_data[i as int].1);
                    assert(self@ =~= old(self)@.withdraw(token_id, *account_id));
                }
                removed
            },
            None => None,
        }
    }

    /// Refuses a caller who is not the owner of the token.
    fn require_is_token_owner(
        &self,
        predecessor: &AccountId,
        owner: &Option<AccountId>,
    ) -> (r: Result<(), Error>)
        ensures
            r == owner_only(*predecessor, *owner),
    {
        if is_owner(predecessor, owner) {
            Ok(())
        } else {
            Err(Error::Unauthorized)
        }
    }

    /// Removes every approval on the token and returns how many there were.
    fn clear_token(&mut self, token: u32) -> (r: u64)
        requires
            old(self).wf(),
        ensures
            final(self).wf(),
            r == old(self)@.approvals(token).len(),
            final(self)@ == old(self)@.clear(token),
    {
        match self.find_record(token) {
            Some(i) => {
                let ghost before = self.key_data@;
                let n = self.key_data[i].1.revoke_all();
                proof {
                    assert(self.key_data@ =~= before.update(
                        i as int,
                        (token, self.key_data[i as int].1),
                    ));
                    lemma_record_update(before, i as int, self.key_data[i as int].1);
                    assert(self@ =~= old(self)@.clear(token));
                }
                n
            },
            None => {
                assert(old(self)@.approvals(token).len() == 0);
                0
            },
        }
    }

    /// Begins a mint: reserves the identifier of the new token and asks for
    /// the latest key version.
    ///
    /// `registered` says whether the caller has registered for storage
    /// accounting. The identifier stays reserved whether or not the
    /// custody service answers.
    pub fn mint(
        &mut self,
        predecessor: AccountId,
        registered: bool,
        storage_usage_start: u64,
    ) -> (r: Result<MintCall, Error>)
        ensures
            final(self).key_data == old(self).key_data,
            final(self).signer_contract_id == old(self).signer_contract_id,
            match mint_answer(old(self)@, registered) {
                Ok(id) => {
                    &&& final(self)@ == old(self)@.reserve()
                    &&& final(self).next_id == id + 1
                    &&& r matches Ok(call)
                    &&& call.signer == old(self)@.signer
                    &&& call.id == id
                    &&& call.predecessor == predecessor
                    &&& call.storage_usage_start == storage_usage_start
                },
                Err(e) => {
                    &&& r matches Err(x)
                    &&& x == e
                    &&& *final(self) == *old(self)
                },
            },
    {
        if !registered {
            return Err(Error::Unregistered);
        }
        let id = match self.generate_id() {
            Ok(id) => id,
            Err(e) => {
                return Err(e);
            },
        };
        Ok(
            MintCall {
                signer: self.signer_contract_id.clone(),
                id,
                predecessor,
                storage_usage_start,
            },
        )
    }

    /// Ends a mint: records the key version that the custody service
    /// answered, and says which token to create in the registry.
    ///
    /// Where the service did not answer, nothing is recorded and the
    /// identifier stays spent. A token that already has a record keeps it.
    pub fn mint_callback(
        &mut self,
        id: u32,
        predecessor: AccountId,
        storage_usage_start: u64,
        result: Result<u32, PromiseError>,
    ) -> (r: Result<MintCommit, Error>)
        requires
            old(self).wf(),
        ensures
            final(self).wf(),
            match commit_answer(old(self)@, id, delivered(result)) {
                Ok(key_version) => {
                    &&& final(self)@ == old(self)@.commit(id, key_version)
                    &&& r matches Ok(commit)
                    &&& commit.id == id
                    &&& commit.token_id@ == decimal_text(id as nat)
                    &&& token_of(commit.token_id@) == Some(id)
                    &&& commit.owner == predecessor
                    &&& commit.title@ == title_text(id as nat)
                    &&& commit.storage_usage_start == storage_usage_start
                },
                Err(e) => {
                    &&& r matches Err(x)
                    &&& x == e
                    &&& *final(self) == *old(self)
                },
            },
    {
        let key_version = match result {
            Ok(key_version) => key_version,
            Err(_) => {
                return Err(Error::RemoteFailure);
            },
        };
        if self.find_record(id).is_some() {
            return Err(Error::Inconsistent);
        }
        let key_data = KeyData::new(key_version);
        proof {
            lemma_record_views(self.key_data@);
            lemma_record_push(self.key_data@, id, key_data);
        }
        self.key_data.push((id, key_data));
        assert(self@ =~= old(self)@.commit(id, key_version));
        Ok(
            MintCommit {
                id,
                token_id: format_token_id(id),
                owner: predecessor,
                title: token_title(id),
                storage_usage_start,
            },
        )
    }

    /// Removes every approval on the token, whoever asks, and returns how
    /// many there were. A token without a record has none.
    pub fn ckt_revoke_all_unchecked(&mut self, token_id: TokenId) -> (r: Result<u64, Error>)
        requires
            old(self).wf(),
        ensures
            final(self).wf(),
            match token_of(token_id@) {
                Some(token) => {
                    &&& r matches Ok(n)
                    &&& n == old(self)@.approvals(token).len()
                    &&& final(self)@ == old(self)@.clear(token)
                },
                None => {
                    &&& r matches Err(e)
                    &&& e == Error::NotFound
                    &&& *final(self) == *old(self)
                },
            },
    {
        match parse_token_id(token_id.as_str()) {
            Some(id) => Ok(self.clear_token(id)),
            None => Err(Error::NotFound),
        }
    }

    /// Says what to ask the key-custody service for the public key of a
    /// sub-path of a token. Anyone may ask.
    pub fn ckt_public_key_for(
        &self,
        token_id: TokenId,
        path: Option<String>,
    ) -> (r: PublicKeyQuery)
        ensures
            r.signer == self@.signer,
            r.path@ == path_text(token_id@, text_or_empty(path)),
    {
        let path = text_or_default(path);
        PublicKeyQuery {
            signer: self.signer_contract_id.clone(),
            path: make_path_string(token_id.as_str(), path.as_str()),
        }
    }

    /// The object identifier of the curve that the keys lie on.
    pub fn ckt_scheme_oid(&self) -> (r: String)
        ensures
            r@ == SCHEME_OID@,
    {
        String::from_str(SCHEME_OID)
    }

    /// Ends a signing round trip: the whole escrow goes back to the
    /// caller, and the answer of the custody service, or its failure, is
    /// handed on.
    pub fn sign_callback<T>(
        &self,
        attached_deposit: u128,
        predecessor: AccountId,
        result: Result<T, PromiseError>,
    ) -> (r: SignSettlement<T>)
        ensures
            attached_deposit == 0 ==> r.refund is None,
            attached_deposit > 0 ==> r.refund == Some(
                Refund { to: predecessor, amount: attached_deposit },
            ),
            match delivered(result) {
                Some(signature) => r.result matches Ok(x) && x == signature,
                None => r.result matches Err(e) && e == Error::RemoteFailure,
            },
    {
        let refund = if attached_deposit > 0 {
            Some(Refund { to: predecessor, amount: attached_deposit })
        } else {
            None
        };
        let result = match result {
            Ok(signature) => Ok(signature),
            Err(_) => Err(Error::RemoteFailure),
        };
        SignSettlement { refund, result }
    }

    /// Settles an approval once the delegate's receiver has answered.
    ///
    /// The approval must still stand under the identifier it was granted
    /// with. It is removed if the receiver answered that it does not
    /// accept; it stays if the receiver accepted or could not be reached.
    /// Returns the identifier of the approval that stands, if one does.
    pub fn ckt_approve_callback(
        &mut self,
        token_id: u32,
        account_id: AccountId,
        approval_id: u32,
        result: Result<bool, PromiseError>,
    ) -> (r: Result<Option<u32>, Error>)
        requires
            old(self).wf(),
        ensures
            final(self).wf(),
            r == reconcile_answer(old(self)@, token_id, account_id, approval_id, delivered(result)),
            final(self)@ == reconcile_state(
                old(self)@,
                token_id,
                account_id,
                approval_id,
                delivered(result),
            ),
            r is Err ==> *final(self) == *old(self),
    {
        let i = match self.find_record(token_id) {
            Some(i) => i,
            None => {
                return Err(Error::NotFound);
            },
        };
        let held = self.key_data[i].1.approval_id_for(&account_id);
        let stands = match held {
            Some(id) => id == approval_id,
            None => false,
        };
        if !stands {
            return Err(Error::Inconsistent);
        }
        let declined = match result {
            Ok(accepted) => !accepted,
            Err(_) => false,
        };
        if declined {
            self.revoke(token_id, &account_id);
            Ok(None)
        } else {
            Ok(Some(approval_id))
        }
    }

    /// Ends a revocation. The approval is gone whatever the receiver did
    /// with the notice, so nothing is left to do.
    pub fn ckt_revoke_callback(&self) {
    }

    /// Approves `account_id` on the token and returns the identifier of the
    /// approval. Only the owner of the token may do so.
    pub fn ckt_approve(
        &mut self,
        predecessor: &AccountId,
        owner: &Option<AccountId>,
        token_id: TokenId,
        account_id: AccountId,
    ) -> (r: Result<u32, Error>)
        requires
            old(self).wf(),
        ensures
            final(self).wf(),
            r == approve_answer(old(self)@, *predecessor, *owner, token_id@),
            r is Ok ==> final(self)@ == old(self)@.grant(token_of(token_id@).unwrap(), account_id),
            r is Err ==> *final(self) == *old(self),
    {
        match self.require_is_token_owner(predecessor, owner) {
            Ok(()) => {},
            Err(e) => {
                return Err(e);
            },
        }
        let id = match parse_token_id(token_id.as_str()) {
            Some(id) => id,
            None => {
                return Err(Error::NotFound);
            },
        };
        self.approve(id, &account_id)
    }

    /// Approves `account_id` on the token and says what to tell its
    /// receiver. The approval stands at once; `ckt_approve_callback`
    /// removes it again if the receiver does not accept.
    pub fn ckt_approve_call(
        &mut self,
        predecessor: &AccountId,
        owner: &Option<AccountId>,
        token_id: TokenId,
        account_id: AccountId,
        msg: Option<String>,
    ) -> (r: Result<ApprovalNotice, Error>)
        requires
            old(self).wf(),
        ensures
            final(self).wf(),
            match approve_answer(old(self)@, *predecessor, *owner, token_id@) {
                Ok(approval_id) => {
                    &&& final(self)@ == old(self)@.grant(token_of(token_id@).unwrap(), account_id)
                    &&& r matches Ok(notice)
                    &&& notice.receiver == account_id
                    &&& notice.grantor == *predecessor
                    &&& notice.token_id@ == token_id@
                    &&& Some(notice.token) == token_of(token_id@)
                    &&& notice.approval_id == approval_id
                    &&& notice.msg@ == text_or_empty(msg)
                },
                Err(e) => {
                    &&& r matches Err(x)
                    &&& x == e
                    &&& *final(self) == *old(self)
                },
            },
    {
        match self.require_is_token_owner(predecessor, owner) {
            Ok(()) => {},
            Err(e) => {
                return Err(e);
            },
        }
        let id = match parse_token_id(token_id.as_str()) {
            Some(id) => id,
            None => {
                return Err(Error::NotFound);
            },
        };
        let approval_id = match self.approve(id, &account_id) {
            Ok(approval_id) => approval_id,
            Err(e) => {
                return Err(e);
            },
        };
        Ok(
            ApprovalNotice {
                receiver: account_id,
                grantor: predecessor.clone(),
                token_id,
                token: id,
                approval_id,
                msg: text_or_default(msg),
            },
        )
    }

    /// Removes the approval of `account_id` on the token and returns its
    /// identifier, if there was one. Only the owner of the token may do so.
    pub fn ckt_revoke(
        &mut self,
        predecessor: &AccountId,
        owner: &Option<AccountId>,
        token_id: TokenId,
        account_id: AccountId,
    ) -> (r: Result<Option<u32>, Error>)
        requires
            old(self).wf(),
        ensures
            final(self).wf(),
            match owner_answer(*predecessor, *owner, token_id@) {
                Ok(token) => {
                    &&& r == Ok::<Option<u32>, Error>(old(self)@.approval(token, account_id))
                    &&& final(self)@ == old(self)@.withdraw(token, account_id)
                },
                Err(e) => {
                    &&& r == Err::<Option<u32>, Error>(e)
                    &&& *final(self) == *old(self)
                },
            },
    {
        match self.require_is_token_owner(predecessor, owner) {
            Ok(()) => {},
            Err(e) => {
                return Err(e);
            },
        }
        let id = match parse_token_id(token_id.as_str()) {
            Some(id) => id,
            None => {
                return Err(Error::NotFound);
            },
        };
        Ok(self.revoke(id, &account_id))
    }

    /// Removes the approval of `account_id` on the token and, if there was
    /// one, says what to tell its receiver. The removal stands whatever
    /// becomes of the notice.
    pub fn ckt_revoke_call(
        &mut self,
        predecessor: &AccountId,
        owner: &Option<AccountId>,
        token_id: TokenId,
        account_id: AccountId,
        msg: Option<String>,
    ) -> (r: Result<Option<RevocationNotice>, Error>)
        requires
            old(self).wf(),
        ensures
            final(self).wf(),
            match owner_answer(*predecessor, *owner, token_id@) {
                Ok(token) => {
                    &&& final(self)@ == old(self)@.withdraw(token, account_id)
                    &&& r matches Ok(told)
                    &&& match old(self)@.approval(token, account_id) {
                        Some(approval_id) => {
                            &&& told matches Some(notice)
                            &&& notice.receiver == account_id
                            &&& notice.grantor == *predecessor
                            &&& notice.token_id@ == token_id@
                            &&& notice.approval_id == approval_id
                            &&& notice.msg@ == text_or_empty(msg)
                        },
                        None => told is None,
                    }
                },
                Err(e) => {
                    &&& r matches Err(x)
                    &&& x == e
                    &&& *final(self) == *old(self)
                },
            },
    {
        match self.require_is_token_owner(predecessor, owner) {
            Ok(()) => {},
            Err(e) => {
                return Err(e);
            },
        }
        let id = match parse_token_id(token_id.as_str()) {
            Some(id) => id,
            None => {
                return Err(Error::NotFound);
            },
        };
        match self.revoke(id, &account_id) {
            Some(revoked_approval_id) => Ok(
                Some(
                    RevocationNotice {
                        receiver: account_id,
                        grantor: predecessor.clone(),
                        token_id,
                        approval_id: revoked_approval_id,
                        msg: text_or_default(msg),
                    },
                ),
            ),
            None => Ok(None),
        }
    }

    /// Removes every approval on the token and returns how many there
    /// were. Only the owner of the token may do so.
    pub fn ckt_revoke_all(
        &mut self,
        predecessor: &AccountId,
        owner: &Option<AccountId>,
        token_id: TokenId,
    ) -> (r: Result<u64, Error>)
        requires
            old(self).wf(),
        ensures
            final(self).wf(),
            match owner_answer(*predecessor, *owner, token_id@) {
                Ok(token) => {
                    &&& r matches Ok(n)
                    &&& n == old(self)@.approvals(token).len()
                    &&& final(self)@ == old(self)@.clear(token)
                },
                Err(e) => {
                    &&& r matches Err(x)
                    &&& x == e
                    &&& *final(self) == *old(self)
                },
            },
    {
        match self.require_is_token_owner(predecessor, owner) {
            Ok(()) => {},
            Err(e) => {
                return Err(e);
            },
        }
        self.ckt_revoke_all_unchecked(token_id)
    }

    /// The identifier under which `account_id` is approved on the token,
    /// if it is. Anyone may ask.
    pub fn ckt_approval_id_for(
        &self,
        token_id: TokenId,
        account_id: AccountId,
    ) -> (r: Result<Option<u32>, Error>)
        requires
            self.wf(),
        ensures
            match token_of(token_id@) {
                Some(token) => r == Ok::<Option<u32>, Error>(self@.approval(token, account_id)),
                None => r == Err::<Option<u32>, Error>(Error::NotFound),
            },
    {
        let id = match parse_token_id(token_id.as_str()) {
            Some(id) => id,
            None => {
                return Err(Error::NotFound);
            },
        };
        match self.find_record(id) {
            Some(i) => Ok(self.key_data[i].1.approval_id_for(&account_id)),
            None => Ok(None),
        }
    }

    /// What happens before a token changes hands: every approval on it is
    /// removed, whoever moves the token.
    pub fn transfer_hook(&mut self, token_id: TokenId) -> (r: Result<(), Error>)
        requires
            old(self).wf(),
        ensures
            final(self).wf(),
            match token_of(token_id@) {
                Some(token) => {
                    &&& r is Ok
                    &&& final(self)@ == old(self)@.clear(token)
                    &&& final(self)@.approvals(token) == Map::<AccountId, u32>::empty()
                },
                None => {
                    &&& r matches Err(e)
                    &&& e == Error::NotFound
                    &&& *final(self) == *old(self)
                },
            },
    {
        match self.ckt_revoke_all_unchecked(token_id) {
            Ok(_) => Ok(()),
            Err(e) => Err(e),
        }
    }

    /// What happens before tokens are burned: every approval on each of
    /// them is removed, provided the caller owns them all. The key records
    /// themselves stay.
    pub fn burn_hook(
        &mut self,
        predecessor: &AccountId,
        tokens: &Vec<BurnedToken>,
    ) -> (r: Result<(), Error>)
        requires
            old(self).wf(),
        ensures
            final(self).wf(),
            match burn_answer(*predecessor, tokens@) {
                Ok(cleared) => r is Ok && final(self)@ == old(self)@.clear_all(cleared),
                Err(e) => {
                    &&& r matches Err(x)
                    &&& x == e
                    &&& *final(self) == *old(self)
                },
            },
    {
        let mut ids: Vec<u32> = Vec::new();
        let mut i: usize = 0;
        assert(tokens@.take(0) =~= Seq::<BurnedToken>::empty());
        while i < tokens.len()
            invariant
                i <= tokens.len(),
                self.wf(),
                *self == *old(self),
                burn_answer(*predecessor, tokens@.take(i as int)) == Ok::<Seq<u32>, Error>(ids@),
            decreases tokens.len() - i,
        {
            proof {
                assert(tokens@.take(i + 1).drop_last() =~= tokens@.take(i as int));
                if burn_answer(*predecessor, tokens@.take(i + 1)) is Err {
                    lemma_burn_refusal_stands(*predecessor, tokens@, i + 1);
                }
            }
            if !is_owner(predecessor, &tokens[i].owner) {
                return Err(Error::Unauthorized);
            }
            match parse_token_id(tokens[i].token_id.as_str()) {
                Some(id) => {
                    ids.push(id);
                },
                None => {
                    return Err(Error::NotFound);
                },
            }
            i += 1;
        }
        assert(tokens@.take(tokens.len() as int) =~= tokens@);
        let mut j: usize = 0;
        assert(ids@.take(0) =~= Seq::<u32>::empty());
        while j < ids.len()
            invariant
                j <= ids.len(),
                self.wf(),
                self@ == old(self)@.clear_all(ids@.take(j as int)),
            decreases ids.len() - j,
        {
            assert(ids@.take(j + 1).drop_last() =~= ids@.take(j as int));
            self.clear_token(ids[j]);
            j += 1;
        }
        assert(ids@.take(ids.len() as int) =~= ids@);
        Ok(())
    }
}

/// The object identifier of the secp256k1 curve.
pub const SCHEME_OID: &'static str = "1.3.132.0.10";

/// What a cross-contract call delivered; nothing where it failed.
pub open spec fn delivered<T>(result: Result<T, PromiseError>) -> Option<T> {
    match result {
        Ok(value) => Some(value),
        Err(_) => None,
    }
}

/// The text of an optional argument; empty where it was left out.
pub open spec fn text_or_empty(text: Option<String>) -> Seq<char> {
    match text {
        Some(t) => t@,
        None => Seq::empty(),
    }
}

fn text_or_default(text: Option<String>) -> (r: String)
    ensures
        r@ == text_or_empty(text),
{
    match text {
        Some(t) => t,
        None => String::new(),
    }
}

fn is_owner(predecessor: &AccountId, owner: &Option<AccountId>) -> (r: bool)
    ensures
        r == (*owner == Some(*predecessor)),
{
    match owner {
        Some(o) => same_account(o, predecessor),
        None => false,
    }
}

} // verus!
