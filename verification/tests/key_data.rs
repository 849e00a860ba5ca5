use near_sdk::AccountId;
use nft_key::KeyData;

fn acct(name: &str) -> AccountId {
    name.parse().unwrap()
}

#[test]
fn new_record_has_no_approvals() {
    let kd = KeyData::new(3);
    assert_eq!(kd.key_version, 3);
    assert!(kd.approvals.is_empty());
    assert!(kd.is_wf());
    assert_eq!(kd.approval_id_for(&acct("alice.near")), None);
}

#[test]
fn approve_then_look_up() {
    let mut kd = KeyData::new(0);
    kd.approve(&acct("alice.near"), 5);
    kd.approve(&acct("bob.near"), 6);
    assert_eq!(kd.approval_id_for(&acct("alice.near")), Some(5));
    assert_eq!(kd.approval_id_for(&acct("bob.near")), Some(6));
    assert_eq!(kd.approval_id_for(&acct("carol.near")), None);
    assert_eq!(kd.approvals.len(), 2);
    assert!(kd.is_wf());
}

#[test]
fn approve_again_replaces_the_identifier() {
    let mut kd = KeyData::new(0);
    kd.approve(&acct("alice.near"), 5);
    kd.approve(&acct("bob.near"), 6);
    kd.approve(&acct("alice.near"), 9);
    assert_eq!(kd.approval_id_for(&acct("alice.near")), Some(9));
    assert_eq!(kd.approval_id_for(&acct("bob.near")), Some(6));
    assert_eq!(kd.approvals.len(), 2);
}

#[test]
fn revoke_returns_what_it_removed() {
    let mut kd = KeyData::new(0);
    kd.approve(&acct("alice.near"), 5);
    kd.approve(&acct("bob.near"), 6);
    kd.approve(&acct("carol.near"), 7);
    assert_eq!(kd.revoke(&acct("bob.near")), Some(6));
    assert_eq!(kd.revoke(&acct("bob.near")), None);
    assert_eq!(kd.approval_id_for(&acct("alice.near")), Some(5));
    assert_eq!(kd.approval_id_for(&acct("bob.near")), None);
    assert_eq!(kd.approval_id_for(&acct("carol.near")), Some(7));
    assert_eq!(kd.revoke(&acct("dave.near")), None);
    assert_eq!(kd.approvals.len(), 2);
}

#[test]
fn revoke_all_counts_and_empties() {
    let mut kd = KeyData::new(8);
    assert_eq!(kd.revoke_all(), 0);
    kd.approve(&acct("alice.near"), 5);
    kd.approve(&acct("bob.near"), 6);
    kd.approve(&acct("alice.near"), 7);
    assert_eq!(kd.revoke_all(), 2);
    assert_eq!(kd.approval_id_for(&acct("alice.near")), None);
    assert_eq!(kd.approval_id_for(&acct("bob.near")), None);
    assert_eq!(kd.revoke_all(), 0);
    assert_eq!(kd.key_version, 8);
}

#[test]
fn record_with_an_account_twice_is_not_well_formed() {
    let good = KeyData {
        approvals: vec![(acct("alice.near"), 1), (acct("bob.near"), 1)],
        key_version: 0,
    };
    assert!(good.is_wf());
    let bad = KeyData {
        approvals: vec![(acct("alice.near"), 1), (acct("bob.near"), 2), (acct("alice.near"), 3)],
        key_version: 0,
    };
    assert!(!bad.is_wf());
}
