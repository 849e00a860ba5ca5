use near_sdk::{AccountId, PromiseError};
use nft_key::calls::BurnedToken;
use nft_key::{Error, KeyData, NftKeyContract};

fn account(name: &str) -> AccountId {
    name.parse().unwrap()
}

fn text(s: &str) -> String {
    s.to_string()
}

/// A contract in which `owner` has minted `count` tokens with key version 7.
fn minted(owner: &AccountId, count: u32) -> NftKeyContract {
    let mut c = NftKeyContract::new(account("signer.near"));
    for _ in 0..count {
        let call = c.mint(owner.clone(), true, 0).unwrap();
        c.mint_callback(call.id, call.predecessor, call.storage_usage_start, Ok(7)).unwrap();
    }
    c
}

#[test]
fn new_contract_is_empty() {
    let c = NftKeyContract::new(account("signer.near"));
    assert_eq!(c.next_id, 0);
    assert!(c.key_data.is_empty());
    assert!(c.is_wf());
    assert_eq!(c.get_signer_contract_id(), &account("signer.near"));
}

#[test]
fn signer_can_be_replaced() {
    let mut c = minted(&account("alice.near"), 1);
    c.set_signer_contract_id(account("other.near"));
    assert_eq!(c.get_signer_contract_id(), &account("other.near"));
    assert_eq!(c.next_id, 1);
    assert_eq!(c.key_data.len(), 1);
    let q = c.ckt_public_key_for(text("0"), None);
    assert_eq!(q.signer, account("other.near"));
}

#[test]
fn mint_reserves_an_identifier() {
    let mut c = NftKeyContract::new(account("signer.near"));
    let call = c.mint(account("alice.near"), true, 1234).unwrap();
    assert_eq!(call.id, 0);
    assert_eq!(call.signer, account("signer.near"));
    assert_eq!(call.predecessor, account("alice.near"));
    assert_eq!(call.storage_usage_start, 1234);
    assert_eq!(c.next_id, 1);
    assert!(c.key_data.is_empty());
}

#[test]
fn mint_needs_registration() {
    let mut c = NftKeyContract::new(account("signer.near"));
    assert_eq!(c.mint(account("alice.near"), false, 0).unwrap_err(), Error::Unregistered);
    assert_eq!(c.next_id, 0);
}

#[test]
fn mint_stops_when_identifiers_run_out() {
    let mut c = NftKeyContract::new(account("signer.near"));
    c.next_id = u32::MAX - 1;
    let call = c.mint(account("alice.near"), true, 0).unwrap();
    assert_eq!(call.id, u32::MAX - 1);
    assert_eq!(c.next_id, u32::MAX);
    assert_eq!(c.mint(account("alice.near"), true, 0).unwrap_err(), Error::Exhausted);
    assert_eq!(c.next_id, u32::MAX);
    assert_eq!(c.mint(account("alice.near"), false, 0).unwrap_err(), Error::Unregistered);
}

#[test]
fn mint_callback_commits_the_record() {
    let mut c = NftKeyContract::new(account("signer.near"));
    let call = c.mint(account("alice.near"), true, 55).unwrap();
    let commit = c.mint_callback(call.id, call.predecessor, 55, Ok(3)).unwrap();
    assert_eq!(commit.id, 0);
    assert_eq!(commit.token_id, "0");
    assert_eq!(commit.owner, account("alice.near"));
    assert_eq!(commit.title, "Chain Key Token #0");
    assert_eq!(commit.storage_usage_start, 55);
    assert_eq!(c.key_data.len(), 1);
    assert_eq!(c.key_data[0].0, 0);
    assert_eq!(c.key_data[0].1.key_version, 3);
    assert!(c.key_data[0].1.approvals.is_empty());
}

#[test]
fn failed_provisioning_keeps_the_reservation() {
    let mut c = NftKeyContract::new(account("signer.near"));
    let call = c.mint(account("alice.near"), true, 0).unwrap();
    let r = c.mint_callback(call.id, call.predecessor, 0, Err(PromiseError::Failed));
    assert_eq!(r.unwrap_err(), Error::RemoteFailure);
    assert!(c.key_data.is_empty());
    assert_eq!(c.next_id, 1);
    let next = c.mint(account("alice.near"), true, 0).unwrap();
    assert_eq!(next.id, 1);
}

#[test]
fn mint_callback_refuses_a_second_record() {
    let alice = account("alice.near");
    let mut c = minted(&alice, 1);
    c.ckt_approve(&alice, &Some(alice.clone()), text("0"), account("x.near")).unwrap();
    let r = c.mint_callback(0, alice.clone(), 0, Ok(9));
    assert_eq!(r.unwrap_err(), Error::Inconsistent);
    assert_eq!(c.key_data.len(), 1);
    assert_eq!(c.key_data[0].1.key_version, 7);
    assert_eq!(c.ckt_approval_id_for(text("0"), account("x.near")), Ok(Some(1)));
    let r = c.mint_callback(0, alice, 0, Err(PromiseError::Failed));
    assert_eq!(r.unwrap_err(), Error::RemoteFailure);
}

#[test]
fn minted_identifiers_increase_and_skip_approvals() {
    let alice = account("alice.near");
    let owner = Some(alice.clone());
    let mut c = NftKeyContract::new(account("signer.near"));
    let mut tokens = Vec::new();
    let mut approvals = Vec::new();
    for round in 0..5u32 {
        let call = c.mint(alice.clone(), true, 0).unwrap();
        c.mint_callback(call.id, alice.clone(), 0, Ok(round)).unwrap();
        tokens.push(call.id);
        let a = c.ckt_approve(&alice, &owner, call.id.to_string(), account("x.near")).unwrap();
        approvals.push(a);
        let b = c.ckt_approve(&alice, &owner, call.id.to_string(), account("y.near")).unwrap();
        approvals.push(b);
    }
    assert_eq!(tokens, vec![0, 3, 6, 9, 12]);
    assert_eq!(approvals, vec![1, 2, 4, 5, 7, 8, 10, 11, 13, 14]);
    for w in tokens.windows(2) {
        assert!(w[0] < w[1]);
    }
    for t in &tokens {
        assert!(!approvals.contains(t));
    }
    assert_eq!(c.next_id, 15);
}

#[test]
fn approve_records_and_returns_the_identifier() {
    let alice = account("alice.near");
    let mut c = minted(&alice, 2);
    let owner = Some(alice.clone());
    assert_eq!(c.ckt_approve(&alice, &owner, text("1"), account("x.near")), Ok(2));
    assert_eq!(c.ckt_approval_id_for(text("1"), account("x.near")), Ok(Some(2)));
    assert_eq!(c.ckt_approval_id_for(text("0"), account("x.near")), Ok(None));
    assert_eq!(c.ckt_approval_id_for(text("1"), account("y.near")), Ok(None));
    assert_eq!(c.ckt_approve(&alice, &owner, text("1"), account("x.near")), Ok(3));
    assert_eq!(c.ckt_approval_id_for(text("1"), account("x.near")), Ok(Some(3)));
    assert_eq!(c.key_data[1].1.approvals.len(), 1);
    assert!(c.is_wf());
}

#[test]
fn approve_is_for_the_owner_only() {
    let alice = account("alice.near");
    let bob = account("bob.near");
    let mut c = minted(&alice, 1);
    let owner = Some(alice.clone());
    assert_eq!(
        c.ckt_approve(&bob, &owner, text("0"), account("x.near")),
        Err(Error::Unauthorized)
    );
    assert_eq!(c.ckt_approve(&bob, &None, text("0"), bob.clone()), Err(Error::Unauthorized));
    assert_eq!(c.ckt_approve(&bob, &owner, text("zero"), bob.clone()), Err(Error::Unauthorized));
    assert_eq!(c.next_id, 1);
    assert_eq!(c.ckt_approval_id_for(text("0"), account("x.near")), Ok(None));
}

#[test]
fn approve_refuses_unknown_tokens() {
    let alice = account("alice.near");
    let mut c = minted(&alice, 1);
    let owner = Some(alice.clone());
    let x = account("x.near");
    assert_eq!(c.ckt_approve(&alice, &owner, text("zero"), x), Err(Error::NotFound));
    assert_eq!(c.ckt_approve(&alice, &owner, text(""), account("x.near")), Err(Error::NotFound));
    assert_eq!(c.ckt_approve(&alice, &owner, text("5"), account("x.near")), Err(Error::NotFound));
    assert_eq!(c.next_id, 1);
}

#[test]
fn approve_stops_when_identifiers_run_out() {
    let alice = account("alice.near");
    let mut c = minted(&alice, 1);
    c.next_id = u32::MAX;
    let owner = Some(alice.clone());
    assert_eq!(c.ckt_approve(&alice, &owner, text("0"), account("x.near")), Err(Error::Exhausted));
    assert_eq!(c.ckt_approve(&alice, &owner, text("9"), account("x.near")), Err(Error::Exhausted));
    assert_eq!(c.ckt_approval_id_for(text("0"), account("x.near")), Ok(None));
    assert_eq!(c.next_id, u32::MAX);
}

#[test]
fn token_text_may_carry_a_plus_or_zeros() {
    let alice = account("alice.near");
    let mut c = minted(&alice, 1);
    let owner = Some(alice.clone());
    assert_eq!(c.ckt_approve(&alice, &owner, text("+0"), account("x.near")), Ok(1));
    assert_eq!(c.ckt_approval_id_for(text("000"), account("x.near")), Ok(Some(1)));
    assert_eq!(c.ckt_revoke(&alice, &owner, text("0"), account("x.near")), Ok(Some(1)));
}

#[test]
fn approval_follows_grants_and_removals() {
    let alice = account("alice.near");
    let bob = account("bob.near");
    let x = account("x.near");
    let y = account("y.near");
    let mut c = minted(&alice, 2);
    let mut owner = Some(alice.clone());
    let look = |c: &NftKeyContract, t: &str, a: &AccountId| {
        c.ckt_approval_id_for(text(t), a.clone()).unwrap()
    };
    assert_eq!(look(&c, "0", &x), None);
    let first = c.ckt_approve(&alice, &owner, text("0"), x.clone()).unwrap();
    assert_eq!(look(&c, "0", &x), Some(first));
    // other accounts and other tokens do not disturb it
    c.ckt_approve(&alice, &owner, text("0"), y.clone()).unwrap();
    c.ckt_approve(&alice, &owner, text("1"), x.clone()).unwrap();
    c.ckt_revoke(&alice, &owner, text("0"), y.clone()).unwrap();
    c.ckt_revoke_all(&alice, &owner, text("1")).unwrap();
    let call = c.mint(bob.clone(), true, 0).unwrap();
    c.mint_callback(call.id, bob.clone(), 0, Ok(1)).unwrap();
    assert_eq!(look(&c, "0", &x), Some(first));
    // refused operations do not disturb it either
    assert!(c.ckt_revoke(&bob, &owner, text("0"), x.clone()).is_err());
    assert!(c.ckt_approve(&bob, &owner, text("0"), x.clone()).is_err());
    assert!(c.ckt_approve_callback(0, x.clone(), first + 1, Ok(false)).is_err());
    assert_eq!(look(&c, "0", &x), Some(first));
    // a newer grant replaces it
    let second = c.ckt_approve(&alice, &owner, text("0"), x.clone()).unwrap();
    assert!(second > first);
    assert_eq!(look(&c, "0", &x), Some(second));
    // each kind of removal ends it
    c.ckt_revoke(&alice, &owner, text("0"), x.clone()).unwrap();
    assert_eq!(look(&c, "0", &x), None);
    let third = c.ckt_approve(&alice, &owner, text("0"), x.clone()).unwrap();
    c.transfer_hook(text("0")).unwrap();
    owner = Some(bob.clone());
    assert_eq!(look(&c, "0", &x), None);
    let fourth = c.ckt_approve(&bob, &owner, text("0"), x.clone()).unwrap();
    assert!(fourth > third);
    assert_eq!(look(&c, "0", &x), Some(fourth));
    let burned = vec![BurnedToken { token_id: text("0"), owner: owner.clone() }];
    c.burn_hook(&bob, &burned).unwrap();
    assert_eq!(look(&c, "0", &x), None);
    let fifth = c.ckt_approve_call(&bob, &owner, text("0"), x.clone(), None).unwrap();
    assert_eq!(look(&c, "0", &x), Some(fifth.approval_id));
    c.ckt_approve_callback(0, x.clone(), fifth.approval_id, Ok(false)).unwrap();
    assert_eq!(look(&c, "0", &x), None);
}

#[test]
fn approval_lookup_refuses_malformed_text() {
    let c = minted(&account("alice.near"), 1);
    assert_eq!(c.ckt_approval_id_for(text("x"), account("x.near")), Err(Error::NotFound));
    assert_eq!(c.ckt_approval_id_for(text("-1"), account("x.near")), Err(Error::NotFound));
    assert_eq!(c.ckt_approval_id_for(text("77"), account("x.near")), Ok(None));
}

#[test]
fn revoke_twice_returns_the_identifier_then_nothing() {
    let alice = account("alice.near");
    let x = account("x.near");
    let mut c = minted(&alice, 1);
    let owner = Some(alice.clone());
    c.ckt_approve(&alice, &owner, text("0"), x.clone()).unwrap();
    c.ckt_approve(&alice, &owner, text("0"), account("y.near")).unwrap();
    assert_eq!(c.ckt_revoke(&alice, &owner, text("0"), x.clone()), Ok(Some(1)));
    let once = c.clone();
    assert_eq!(c.ckt_revoke(&alice, &owner, text("0"), x.clone()), Ok(None));
    assert_eq!(c.next_id, once.next_id);
    assert_eq!(c.key_data.len(), once.key_data.len());
    assert_eq!(c.key_data[0].1.approvals, once.key_data[0].1.approvals);
    assert_eq!(c.ckt_approval_id_for(text("0"), x), Ok(None));
    assert_eq!(c.ckt_approval_id_for(text("0"), account("y.near")), Ok(Some(2)));
}

#[test]
fn revoke_is_for_the_owner_only() {
    let alice = account("alice.near");
    let x = account("x.near");
    let mut c = minted(&alice, 1);
    let owner = Some(alice.clone());
    c.ckt_approve(&alice, &owner, text("0"), x.clone()).unwrap();
    assert_eq!(c.ckt_revoke(&x, &owner, text("0"), x.clone()), Err(Error::Unauthorized));
    assert_eq!(c.ckt_revoke(&alice, &owner, text("?"), x.clone()), Err(Error::NotFound));
    assert_eq!(c.ckt_revoke(&alice, &owner, text("3"), x.clone()), Ok(None));
    assert_eq!(c.ckt_approval_id_for(text("0"), x), Ok(Some(1)));
}

#[test]
fn revoke_call_notifies_only_when_something_was_removed() {
    let alice = account("alice.near");
    let x = account("x.near");
    let mut c = minted(&alice, 1);
    let owner = Some(alice.clone());
    c.ckt_approve(&alice, &owner, text("0"), x.clone()).unwrap();
    let notice = c
        .ckt_revoke_call(&alice, &owner, text("0"), x.clone(), Some(text("bye")))
        .unwrap()
        .unwrap();
    assert_eq!(notice.receiver, x);
    assert_eq!(notice.grantor, alice);
    assert_eq!(notice.token_id, "0");
    assert_eq!(notice.approval_id, 1);
    assert_eq!(notice.msg, "bye");
    assert_eq!(c.ckt_approval_id_for(text("0"), x.clone()), Ok(None));
    assert!(c.ckt_revoke_call(&alice, &owner, text("0"), x.clone(), None).unwrap().is_none());
    c.ckt_approve(&alice, &owner, text("0"), x.clone()).unwrap();
    let notice = c.ckt_revoke_call(&alice, &owner, text("0"), x.clone(), None).unwrap().unwrap();
    assert_eq!(notice.approval_id, 2);
    assert_eq!(notice.msg, "");
    c.ckt_revoke_callback();
    assert_eq!(c.ckt_approval_id_for(text("0"), x), Ok(None));
}

#[test]
fn revoke_call_is_for_the_owner_only() {
    let alice = account("alice.near");
    let x = account("x.near");
    let mut c = minted(&alice, 1);
    let owner = Some(alice.clone());
    c.ckt_approve(&alice, &owner, text("0"), x.clone()).unwrap();
    let r = c.ckt_revoke_call(&x, &owner, text("0"), x.clone(), None);
    assert_eq!(r.unwrap_err(), Error::Unauthorized);
    let r = c.ckt_revoke_call(&alice, &owner, text("nope"), x.clone(), None);
    assert_eq!(r.unwrap_err(), Error::NotFound);
    assert_eq!(c.ckt_approval_id_for(text("0"), x), Ok(Some(1)));
}

#[test]
fn revoke_all_counts_what_it_clears() {
    let alice = account("alice.near");
    let mut c = minted(&alice, 2);
    let owner = Some(alice.clone());
    c.ckt_approve(&alice, &owner, text("0"), account("x.near")).unwrap();
    c.ckt_approve(&alice, &owner, text("0"), account("y.near")).unwrap();
    c.ckt_approve(&alice, &owner, text("1"), account("x.near")).unwrap();
    assert_eq!(c.ckt_revoke_all(&account("x.near"), &owner, text("0")), Err(Error::Unauthorized));
    assert_eq!(c.ckt_revoke_all(&alice, &owner, text("bad")), Err(Error::NotFound));
    assert_eq!(c.ckt_revoke_all(&alice, &owner, text("0")), Ok(2));
    assert_eq!(c.ckt_revoke_all(&alice, &owner, text("0")), Ok(0));
    assert_eq!(c.ckt_revoke_all(&alice, &owner, text("40")), Ok(0));
    assert_eq!(c.ckt_approval_id_for(text("0"), account("x.near")), Ok(None));
    assert_eq!(c.ckt_approval_id_for(text("0"), account("y.near")), Ok(None));
    assert_eq!(c.ckt_approval_id_for(text("1"), account("x.near")), Ok(Some(4)));
}

#[test]
fn unchecked_revoke_all_asks_nobody() {
    let alice = account("alice.near");
    let mut c = minted(&alice, 1);
    let owner = Some(alice.clone());
    c.ckt_approve(&alice, &owner, text("0"), account("x.near")).unwrap();
    c.ckt_approve(&alice, &owner, text("0"), account("y.near")).unwrap();
    c.ckt_approve(&alice, &owner, text("0"), account("z.near")).unwrap();
    assert_eq!(c.ckt_revoke_all_unchecked(text("oops")), Err(Error::NotFound));
    assert_eq!(c.ckt_revoke_all_unchecked(text("8")), Ok(0));
    assert_eq!(c.key_data[0].1.approvals.len(), 3);
    assert_eq!(c.ckt_revoke_all_unchecked(text("0")), Ok(3));
    assert!(c.key_data[0].1.approvals.is_empty());
    assert_eq!(c.key_data[0].1.key_version, 7);
}

#[test]
fn transfer_clears_every_approval() {
    let alice = account("alice.near");
    let mut c = minted(&alice, 2);
    let owner = Some(alice.clone());
    for name in ["a.near", "b.near", "c.near", "d.near"] {
        c.ckt_approve(&alice, &owner, text("0"), account(name)).unwrap();
        c.ckt_approve(&alice, &owner, text("1"), account(name)).unwrap();
    }
    assert_eq!(c.transfer_hook(text("0")), Ok(()));
    for name in ["a.near", "b.near", "c.near", "d.near"] {
        assert_eq!(c.ckt_approval_id_for(text("0"), account(name)), Ok(None));
        assert!(c.ckt_approval_id_for(text("1"), account(name)).unwrap().is_some());
    }
    assert_eq!(c.transfer_hook(text("0")), Ok(()));
    assert_eq!(c.transfer_hook(text("nope")), Err(Error::NotFound));
    assert_eq!(c.transfer_hook(text("99")), Ok(()));
}

#[test]
fn burn_clears_the_tokens_of_the_caller() {
    let alice = account("alice.near");
    let mut c = minted(&alice, 3);
    let owner = Some(alice.clone());
    for t in ["0", "1", "2"] {
        c.ckt_approve(&alice, &owner, text(t), account("x.near")).unwrap();
    }
    let tokens = vec![
        BurnedToken { token_id: text("2"), owner: owner.clone() },
        BurnedToken { token_id: text("0"), owner: owner.clone() },
        BurnedToken { token_id: text("2"), owner: owner.clone() },
    ];
    assert_eq!(c.burn_hook(&alice, &tokens), Ok(()));
    assert_eq!(c.ckt_approval_id_for(text("0"), account("x.near")), Ok(None));
    assert_eq!(c.ckt_approval_id_for(text("1"), account("x.near")), Ok(Some(4)));
    assert_eq!(c.ckt_approval_id_for(text("2"), account("x.near")), Ok(None));
    assert_eq!(c.key_data.len(), 3);
    assert_eq!(c.burn_hook(&alice, &Vec::new()), Ok(()));
}

#[test]
fn burn_changes_nothing_unless_every_token_passes() {
    let alice = account("alice.near");
    let bob = account("bob.near");
    let mut c = minted(&alice, 2);
    let owner = Some(alice.clone());
    c.ckt_approve(&alice, &owner, text("0"), account("x.near")).unwrap();
    c.ckt_approve(&alice, &owner, text("1"), account("x.near")).unwrap();
    let foreign = vec![
        BurnedToken { token_id: text("0"), owner: owner.clone() },
        BurnedToken { token_id: text("1"), owner: Some(bob.clone()) },
    ];
    assert_eq!(c.burn_hook(&alice, &foreign), Err(Error::Unauthorized));
    let malformed = vec![
        BurnedToken { token_id: text("0"), owner: owner.clone() },
        BurnedToken { token_id: text("one"), owner: owner.clone() },
        BurnedToken { token_id: text("1"), owner: None },
    ];
    assert_eq!(c.burn_hook(&alice, &malformed), Err(Error::NotFound));
    let unowned_first = vec![
        BurnedToken { token_id: text("one"), owner: None },
        BurnedToken { token_id: text("two"), owner: owner.clone() },
    ];
    assert_eq!(c.burn_hook(&alice, &unowned_first), Err(Error::Unauthorized));
    assert_eq!(c.ckt_approval_id_for(text("0"), account("x.near")), Ok(Some(2)));
    assert_eq!(c.ckt_approval_id_for(text("1"), account("x.near")), Ok(Some(3)));
}

#[test]
fn state_with_a_token_twice_is_not_well_formed() {
    let mut c = minted(&account("alice.near"), 2);
    assert!(c.is_wf());
    c.key_data.push((1, KeyData::new(0)));
    assert!(!c.is_wf());
    c.key_data.pop();
    assert!(c.is_wf());
    let twice = KeyData {
        approvals: vec![(account("x.near"), 1), (account("x.near"), 2)],
        key_version: 0,
    };
    c.key_data.push((5, twice));
    assert!(!c.is_wf());
}
