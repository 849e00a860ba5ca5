//! What holds of the contract whatever is done with it, proved of the model
//! that every operation is held against.

use crate::error::Error;
use crate::model::{
    issued, reconcile_answer, reconcile_state, run, sign_answer, step, Op, State,
};
use crate::token_id::token_of;
use crate::utils::covers_escrow;
use near_sdk::AccountId;
use vstd::prelude::*;

verus! {

/// Whether the change at position `j` of a run alters the approval of
/// `account` on `token`: a grant to that account that goes through, the
/// removal of its approval, or the removal of all approvals on the token.
pub open spec fn touched_at(
    s: State,
    ops: Seq<Op>,
    j: int,
    token: u32,
    account: AccountId,
) -> bool {
    match ops[j] {
        Op::Grant { token: t, account: a } => t == token && a == account && issued(
            run(s, ops.take(j)),
            ops[j],
        ) is Some,
        Op::Withdraw { token: t, account: a } => t == token && a == account,
        Op::Clear { token: t } => t == token,
        _ => false,
    }
}

/// Whether the change at position `i` of a run approved `account` on
/// `token` under `id`, and no later change of the run altered that.
pub open spec fn live_grant(
    s: State,
    ops: Seq<Op>,
    i: int,
    token: u32,
    account: AccountId,
    id: u32,
) -> bool {
    &&& 0 <= i < ops.len()
    &&& ops[i] == (Op::Grant { token, account })
    &&& issued(run(s, ops.take(i)), ops[i]) == Some(id)
    &&& forall|j: int| i < j < ops.len() ==> !#[trigger] touched_at(s, ops, j, token, account)
}

proof fn lemma_run_prefix(s: State, ops: Seq<Op>, k: int)
    requires
        0 <= k < ops.len(),
    ensures
        run(s, ops.drop_last().take(k)) == run(s, ops.take(k)),
        k < ops.len() - 1 ==> ops.drop_last()[k] == ops[k],
{
    assert(ops.drop_last().take(k) =~= ops.take(k));
}

proof fn lemma_step_frame(s: State, op: Op, token: u32, account: AccountId)
    ensures
        match op {
            Op::Grant { token: t, account: a } => if t == token && a == account && issued(s, op)
                is Some {
                step(s, op).approval(token, account) == Some(s.next_id)
            } else {
                step(s, op).approval(token, account) == s.approval(token, account)
            },
            Op::Withdraw { token: t, account: a } => if t == token && a == account {
                step(s, op).approval(token, account) is None
            } else {
                step(s, op).approval(token, account) == s.approval(token, account)
            },
            Op::Clear { token: t } => if t == token {
                step(s, op).approval(token, account) is None
            } else {
                step(s, op).approval(token, account) == s.approval(token, account)
            },
            _ => step(s, op).approval(token, account) == s.approval(token, account),
        },
{
}

/// An account is approved on a token under an identifier exactly when some
/// approval granted it that identifier and nothing since has removed or
/// replaced the approval: no revocation, no declined notice, no clearing of
/// the token by its owner, by a transfer or by a burn, no newer approval.
pub proof fn law_approval_is_live_grant(
    signer: AccountId,
    ops: Seq<Op>,
    token: u32,
    account: AccountId,
    id: u32,
)
    ensures
        run(State::init(signer), ops).approval(token, account) == Some(id) <==> exists|i: int|
            live_grant(State::init(signer), ops, i, token, account, id),
    decreases ops.len(),
{
    let s0 = State::init(signer);
    if ops.len() == 0 {
        assert(s0.approval(token, account) is None);
        assert(forall|i: int| !live_grant(s0, ops, i, token, account, id));
    } else {
        let pre = ops.drop_last();
        let last = ops.len() - 1;
        let before = run(s0, pre);
        law_approval_is_live_grant(signer, pre, token, account, id);
        lemma_step_frame(before, ops[last], token, account);
        assert(ops.take(last) =~= pre);
        if touched_at(s0, ops, last, token, account) {
            // Only the last change can be the live one.
            assert forall|i: int| live_grant(s0, ops, i, token, account, id) implies i == last by {
                if i < last {
                    assert(touched_at(s0, ops, last, token, account));
                }
            }
            if ops[last] is Grant {
                if before.next_id == id {
                    assert(live_grant(s0, ops, last, token, account, id));
                }
            }
        } else {
            // The approval is what it was; so are the live grants.
            assert forall|i: int| live_grant(s0, pre, i, token, account, id) implies live_grant(
                s0,
                ops,
                i,
                token,
                account,
                id,
            ) by {
                lemma_run_prefix(s0, ops, i);
                assert forall|j: int| i < j < ops.len() implies !touched_at(
                    s0,
                    ops,
                    j,
                    token,
                    account,
                ) by {
                    if j < last {
                        lemma_run_prefix(s0, ops, j);
                        assert(!touched_at(s0, pre, j, token, account));
                    }
                }
            }
            assert forall|i: int| live_grant(s0, ops, i, token, account, id) implies live_grant(
                s0,
                pre,
                i,
                token,
                account,
                id,
            ) by {
                assert(i < last);
                lemma_run_prefix(s0, ops, i);
                assert forall|j: int| i < j < pre.len() implies !touched_at(
                    s0,
                    pre,
                    j,
                    token,
                    account,
                ) by {
                    lemma_run_prefix(s0, ops, j);
                    assert(!touched_at(s0, ops, j, token, account));
                }
            }
        }
    }
}

/// Once the approvals on a token are cleared, as they are before every
/// transfer, nobody is approved on it, however many were before.
pub proof fn law_transfer_leaves_no_approval(s: State, token: u32)
    ensures
        s.clear(token).approvals(token) == Map::<AccountId, u32>::empty(),
        forall|account: AccountId| s.clear(token).approval(token, account) is None,
        forall|other: u32| other != token ==> s.clear(token).approvals(other) == s.approvals(other),
{
    assert(s.clear(token).approvals(token) =~= Map::<AccountId, u32>::empty());
}

/// The owner of a token may sign without presenting an approval. Anyone
/// else may sign exactly when presenting the identifier of the approval
/// held; with another identifier, with none, or without an approval, the
/// request is refused as unauthorised.
pub proof fn law_signing_authority(
    s: State,
    caller: AccountId,
    owner: Option<AccountId>,
    deposit: u128,
    token_text: Seq<char>,
    approval_id: Option<u32>,
)
    requires
        covers_escrow(deposit),
        token_of(token_text) is Some,
        s.has_token(token_of(token_text).unwrap()),
    ensures
        owner == Some(caller) ==> sign_answer(s, caller, owner, deposit, token_text, None) is Ok,
        owner != Some(caller) ==> (sign_answer(s, caller, owner, deposit, token_text, approval_id)
            is Ok <==> approval_id is Some && s.approval(token_of(token_text).unwrap(), caller)
            == approval_id),
        sign_answer(s, caller, owner, deposit, token_text, approval_id) is Err ==> sign_answer(
            s,
            caller,
            owner,
            deposit,
            token_text,
            approval_id,
        ) == Err::<u32, Error>(Error::Unauthorized),
{
}

/// An approval that the delegate's receiver declines is gone afterwards;
/// one that it accepts stands under the identifier it was granted with.
pub proof fn law_notice_settles_approval(s: State, token: u32, account: AccountId)
    requires
        s.has_token(token),
        s.can_reserve(),
    ensures
        ({
            let id = s.next_id;
            let granted = s.grant(token, account);
            &&& granted.approval(token, account) == Some(id)
            &&& reconcile_answer(granted, token, account, id, Some(false)) == Ok::<
                Option<u32>,
                Error,
            >(None)
            &&& reconcile_state(granted, token, account, id, Some(false)).approval(token, account)
                is None
            &&& reconcile_answer(granted, token, account, id, Some(true)) == Ok::<
                Option<u32>,
                Error,
            >(Some(id))
            &&& reconcile_state(granted, token, account, id, Some(true)).approval(token, account)
                == Some(id)
        }),
{
}

/// Revoking twice is revoking once: the second revocation finds nothing to
/// remove and changes nothing.
pub proof fn law_revoke_twice(s: State, token: u32, account: AccountId)
    ensures
        s.withdraw(token, account).approval(token, account) is None,
        s.withdraw(token, account).withdraw(token, account) == s.withdraw(token, account),
{
    let once = s.withdraw(token, account);
    let twice = once.withdraw(token, account);
    if s.has_token(token) {
        assert(once.keys[token].approvals.remove(account) =~= once.keys[token].approvals);
        assert(twice.keys =~= once.keys);
    }
    assert(twice =~= once);
}

/// The counter never runs backwards.
pub proof fn lemma_counter_grows(s: State, ops: Seq<Op>, i: int, j: int)
    requires
        0 <= i <= j <= ops.len(),
    ensures
        run(s, ops.take(i)).next_id <= run(s, ops.take(j)).next_id,
    decreases j - i,
{
    if i < j {
        lemma_counter_grows(s, ops, i, j - 1);
        assert(ops.take(j).drop_last() =~= ops.take(j - 1));
    }
}

/// Identifiers are handed out in strictly increasing order, to tokens and
/// to approvals alike: of two changes of a run that each hand one out, the
/// later one hands out the greater. So no two tokens share an identifier,
/// and no token shares one with an approval.
pub proof fn law_identifiers_increase(s: State, ops: Seq<Op>, i: int, j: int)
    requires
        0 <= i < j < ops.len(),
        issued(run(s, ops.take(i)), ops[i]) is Some,
        issued(run(s, ops.take(j)), ops[j]) is Some,
    ensures
        issued(run(s, ops.take(i)), ops[i]).unwrap() < issued(
            run(s, ops.take(j)),
            ops[j],
        ).unwrap(),
{
    assert(ops.take(i + 1).drop_last() =~= ops.take(i));
    assert(ops.take(i + 1).last() == ops[i]);
    lemma_counter_grows(s, ops, i + 1, j);
}

} // verus!
