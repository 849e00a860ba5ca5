//! The contract state as a mathematical value, and every change that an
//! operation can make to it.
//!
//! The executable contract is held against this model: each operation says
//! which of the steps below it takes, and the laws are proved of the steps.

use crate::calls::BurnedToken;
use crate::error::Error;
use crate::token_id::token_of;
use crate::utils::covers_escrow;
use near_sdk::AccountId;
use vstd::prelude::*;

verus! {

/// What is recorded for one token.
#[verifier::ext_equal]
pub struct KeyDataView {
    /// The key epoch that the custody service assigned at mint time.
    pub key_version: u32,
    /// The delegates of the token, each with the identifier of its grant.
    pub approvals: Map<AccountId, u32>,
}

impl KeyDataView {
    pub open spec fn fresh(key_version: u32) -> KeyDataView {
        KeyDataView { key_version, approvals: Map::empty() }
    }

    pub open spec fn approval(self, account: AccountId) -> Option<u32> {
        if self.approvals.contains_key(account) {
            Some(self.approvals[account])
        } else {
            None
        }
    }

    pub open spec fn grant(self, account: AccountId, id: u32) -> KeyDataView {
        KeyDataView { approvals: self.approvals.insert(account, id), ..self }
    }

    pub open spec fn withdraw(self, account: AccountId) -> KeyDataView {
        KeyDataView { approvals: self.approvals.remove(account), ..self }
    }

    pub open spec fn clear(self) -> KeyDataView {
        KeyDataView { approvals: Map::empty(), ..self }
    }
}

/// The whole contract state.
#[verifier::ext_equal]
pub struct State {
    /// The next identifier that the shared counter hands out, to a token or
    /// to an approval.
    pub next_id: u32,
    /// The key-custody service.
    pub signer: AccountId,
    /// The key record of every token minted so far.
    pub keys: Map<u32, KeyDataView>,
}

impl State {
    pub open spec fn init(signer: AccountId) -> State {
        State { next_id: 0, signer, keys: Map::empty() }
    }

    pub open spec fn has_token(self, token: u32) -> bool {
        self.keys.contains_key(token)
    }

    /// The delegates of a token; none for a token without a record.
    pub open spec fn approvals(self, token: u32) -> Map<AccountId, u32> {
        if self.has_token(token) {
            self.keys[token].approvals
        } else {
            Map::empty()
        }
    }

    /// The identifier under which `account` is approved on `token`, if it is.
    pub open spec fn approval(self, token: u32, account: AccountId) -> Option<u32> {
        if self.approvals(token).contains_key(account) {
            Some(self.approvals(token)[account])
        } else {
            None
        }
    }

    /// Whether the counter has an identifier left to hand out.
    pub open spec fn can_reserve(self) -> bool {
        self.next_id < u32::MAX
    }

    /// Points the contract at another key-custody service.
    pub open spec fn retarget(self, signer: AccountId) -> State {
        State { signer, ..self }
    }

    /// Takes the next identifier off the counter.
    pub open spec fn reserve(self) -> State {
        if self.can_reserve() {
            State { next_id: (self.next_id + 1) as u32, ..self }
        } else {
            self
        }
    }

    /// Creates the key record of a newly minted token, with no delegates.
    pub open spec fn commit(self, token: u32, key_version: u32) -> State {
        if self.has_token(token) {
            self
        } else {
            State { keys: self.keys.insert(token, KeyDataView::fresh(key_version)), ..self }
        }
    }

    /// Approves `account` on `token` under the next identifier.
    pub open spec fn grant(self, token: u32, account: AccountId) -> State {
        if self.has_token(token) && self.can_reserve() {
            State {
                next_id: (self.next_id + 1) as u32,
                keys: self.keys.insert(token, self.keys[token].grant(account, self.next_id)),
                ..self
            }
        } else {
            self
        }
    }

    /// Removes the approval of `account` on `token`, if there is one.
    pub open spec fn withdraw(self, token: u32, account: AccountId) -> State {
        if self.has_token(token) {
            State { keys: self.keys.insert(token, self.keys[token].withdraw(account)), ..self }
        } else {
            self
        }
    }

    /// Removes every approval on `token`.
    pub open spec fn clear(self, token: u32) -> State {
        if self.has_token(token) {
            State { keys: self.keys.insert(token, self.keys[token].clear()), ..self }
        } else {
            self
        }
    }

    /// Removes every approval on each of the tokens, one after the other.
    pub open spec fn clear_all(self, tokens: Seq<u32>) -> State
        decreases tokens.len(),
    {
        if tokens.len() == 0 {
            self
        } else {
            self.clear_all(tokens.drop_last()).clear(tokens.last())
        }
    }

    /// Whether `caller` may have a payload signed with the key of `token`:
    /// as its owner, or else by presenting the exact identifier of an
    /// approval that it holds.
    pub open spec fn authorized(
        self,
        caller: AccountId,
        owner: Option<AccountId>,
        token: u32,
        approval_id: Option<u32>,
    ) -> bool {
        owner == Some(caller) || (approval_id is Some && self.approval(token, caller)
            == approval_id)
    }
}

/// One change of state.
pub enum Op {
    /// An identifier is reserved for a token about to be minted.
    Reserve,
    /// The key record of a minted token is created.
    Commit { token: u32, key_version: u32 },
    /// An account is approved on a token.
    Grant { token: u32, account: AccountId },
    /// The approval of an account on a token is removed: by a revocation, or
    /// because the delegate did not accept it.
    Withdraw { token: u32, account: AccountId },
    /// All approvals on a token are removed: by its owner, or because the
    /// token is transferred or burned.
    Clear { token: u32 },
    /// The contract is pointed at another key-custody service.
    Retarget { signer: AccountId },
}

/// The state after one change.
pub open spec fn step(s: State, op: Op) -> State {
    match op {
        Op::Reserve => s.reserve(),
        Op::Commit { token, key_version } => s.commit(token, key_version),
        Op::Grant { token, account } => s.grant(token, account),
        Op::Withdraw { token, account } => s.withdraw(token, account),
        Op::Clear { token } => s.clear(token),
        Op::Retarget { signer } => s.retarget(signer),
    }
}

/// The identifier that a change hands out, if it hands one out.
pub open spec fn issued(s: State, op: Op) -> Option<u32> {
    match op {
        Op::Reserve => if s.can_reserve() {
            Some(s.next_id)
        } else {
            None
        },
        Op::Grant { token, account } => if s.has_token(token) && s.can_reserve() {
            Some(s.next_id)
        } else {
            None
        },
        _ => None,
    }
}

/// The state after a sequence of changes.
pub open spec fn run(s: State, ops: Seq<Op>) -> State
    decreases ops.len(),
{
    if ops.len() == 0 {
        s
    } else {
        step(run(s, ops.drop_last()), ops.last())
    }
}

/// What an operation that only the owner of a token may perform answers
/// before it looks at the token.
pub open spec fn owner_only(caller: AccountId, owner: Option<AccountId>) -> Result<(), Error> {
    if owner == Some(caller) {
        Ok(())
    } else {
        Err(Error::Unauthorized)
    }
}

/// The answer to a request to mint: the identifier reserved for the token.
pub open spec fn mint_answer(s: State, registered: bool) -> Result<u32, Error> {
    if !registered {
        Err(Error::Unregistered)
    } else if !s.can_reserve() {
        Err(Error::Exhausted)
    } else {
        Ok(s.next_id)
    }
}

/// The answer of the mint continuation: the key version recorded.
pub open spec fn commit_answer(s: State, token: u32, remote: Option<u32>) -> Result<u32, Error> {
    match remote {
        None => Err(Error::RemoteFailure),
        Some(key_version) => if s.has_token(token) {
            Err(Error::Inconsistent)
        } else {
            Ok(key_version)
        },
    }
}

/// The answer to a request to approve on an existing record: the identifier
/// of the new approval.
pub open spec fn grant_answer(s: State, token: u32) -> Result<u32, Error> {
    if !s.can_reserve() {
        Err(Error::Exhausted)
    } else if !s.has_token(token) {
        Err(Error::NotFound)
    } else {
        Ok(s.next_id)
    }
}

/// The answer to the owner's request to approve a delegate.
pub open spec fn approve_answer(
    s: State,
    caller: AccountId,
    owner: Option<AccountId>,
    token_text: Seq<char>,
) -> Result<u32, Error> {
    if owner != Some(caller) {
        Err(Error::Unauthorized)
    } else {
        match token_of(token_text) {
            None => Err(Error::NotFound),
            Some(token) => grant_answer(s, token),
        }
    }
}

/// The answer to an owner-only request that needs nothing but a well-formed
/// token identifier: the token it names.
pub open spec fn owner_answer(
    caller: AccountId,
    owner: Option<AccountId>,
    token_text: Seq<char>,
) -> Result<u32, Error> {
    if owner != Some(caller) {
        Err(Error::Unauthorized)
    } else {
        match token_of(token_text) {
            None => Err(Error::NotFound),
            Some(token) => Ok(token),
        }
    }
}

/// The answer to a request to sign: the key version to sign with.
pub open spec fn sign_answer(
    s: State,
    caller: AccountId,
    owner: Option<AccountId>,
    deposit: u128,
    token_text: Seq<char>,
    approval_id: Option<u32>,
) -> Result<u32, Error> {
    if !covers_escrow(deposit) {
        Err(Error::InsufficientDeposit)
    } else {
        match token_of(token_text) {
            None => Err(Error::NotFound),
            Some(token) => if !s.has_token(token) {
                Err(Error::NotFound)
            } else if !s.authorized(caller, owner, token, approval_id) {
                Err(Error::Unauthorized)
            } else {
                Ok(s.keys[token].key_version)
            },
        }
    }
}

/// The answer of the approval continuation, once the delegate's receiver
/// has answered (`accepted`) or could not be asked (`None`): the approval
/// that stands afterwards.
pub open spec fn reconcile_answer(
    s: State,
    token: u32,
    account: AccountId,
    approval_id: u32,
    accepted: Option<bool>,
) -> Result<Option<u32>, Error> {
    if !s.has_token(token) {
        Err(Error::NotFound)
    } else if s.approval(token, account) != Some(approval_id) {
        Err(Error::Inconsistent)
    } else if accepted == Some(false) {
        Ok(None)
    } else {
        Ok(Some(approval_id))
    }
}

/// The state after the approval continuation.
pub open spec fn reconcile_state(
    s: State,
    token: u32,
    account: AccountId,
    approval_id: u32,
    accepted: Option<bool>,
) -> State {
    if reconcile_answer(s, token, account, approval_id, accepted) == Ok::<Option<u32>, Error>(
        None,
    ) {
        s.withdraw(token, account)
    } else {
        s
    }
}

/// The answer to the burning of several tokens: the tokens whose approvals
/// are cleared. The first token, in the order given, that the caller does
/// not own or whose identifier is malformed decides the refusal.
pub open spec fn burn_answer(caller: AccountId, tokens: Seq<BurnedToken>) -> Result<
    Seq<u32>,
    Error,
>
    decreases tokens.len(),
{
    if tokens.len() == 0 {
        Ok(Seq::empty())
    } else {
        match burn_answer(caller, tokens.drop_last()) {
            Err(e) => Err(e),
            Ok(cleared) => match owner_answer(
                caller,
                tokens.last().owner,
                tokens.last().token_id@,
            ) {
                Err(e) => Err(e),
                Ok(token) => Ok(cleared.push(token)),
            },
        }
    }
}

/// A refusal that some tokens of a burn bring about stands whatever tokens
/// follow them.
pub proof fn lemma_burn_refusal_stands(caller: AccountId, tokens: Seq<BurnedToken>, k: int)
    requires
        0 <= k <= tokens.len(),
        burn_answer(caller, tokens.take(k)) is Err,
    ensures
        burn_answer(caller, tokens) == burn_answer(caller, tokens.take(k)),
    decreases tokens.len() - k,
{
    if k == tokens.len() {
        assert(tokens.take(k) =~= tokens);
    } else {
        assert(tokens.take(k + 1).drop_last() =~= tokens.take(k));
        lemma_burn_refusal_stands(caller, tokens, k + 1);
    }
}

} // verus!
