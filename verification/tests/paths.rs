use ipdis::store::IpdisClientInner;
use ipdis::types::AccountRef;
use ipdis::types::ContentHash;
use ipdis::types::DynPath;
use ipdis::types::GuaranteeSigned;
use ipdis::types::Identity;
use ipdis::types::Metadata;
use ipdis::types::PathData;
use ipdis::types::Signature;

fn account(id: u64) -> AccountRef {
    AccountRef { public_key: id }
}

fn sig(v: u64) -> Signature {
    Signature { value: v }
}

fn hash(v: u128) -> ContentHash {
    ContentHash { value: v }
}

fn dyn_path(kind: u128, word: u128, value: u128, len: u64) -> DynPath {
    DynPath { kind: hash(kind), word: hash(word), path: PathData { value: hash(value), len } }
}

fn signed_path(
    submitter: AccountRef,
    server: AccountRef,
    nonce: u128,
    created: i64,
    expiration: Option<i64>,
    p: DynPath,
) -> GuaranteeSigned<DynPath> {
    GuaranteeSigned {
        guarantee: Identity { account: submitter, signature: sig(submitter.public_key + 2000) },
        data: Metadata {
            nonce,
            created_date: created,
            expiration_date: expiration,
            guarantor: server,
            data: p,
        },
    }
}

#[test]
fn put_then_get_roundtrip() {
    let server = account(1);
    let mut store = IpdisClientInner::new(server);
    let p = dyn_path(10, 20, 30, 4096);
    let submission = signed_path(server, server, 7, 5, Some(90), p);
    // the server stamps the record: fresh nonce 700, current time 10
    assert!(store.put_dyn_path_unsafe(&submission, sig(77), 700, 10).is_ok());
    // a self-lookup: the guarantee defaults to the server's own account
    let got = store.get_dyn_path_unsafe(None, &p, 50).unwrap();
    let record = got.expect("freshly stored path must be found");
    assert_eq!(record.guarantor.account, server);
    assert_eq!(record.guarantor.signature, sig(77));
    // the payload, submitter identity and requested expiration round-trip
    assert_eq!(record.data.data.data, p);
    assert_eq!(record.data.guarantee, submission.guarantee);
    assert_eq!(record.data.data.expiration_date, Some(90));
    // nonce and creation date are the server's stamps, not the payload's
    assert_eq!(record.data.data.nonce, 700);
    assert_eq!(record.data.data.created_date, 10);
}

#[test]
fn latest_insertion_wins() {
    let server = account(1);
    let mut store = IpdisClientInner::new(server);
    let p_first = dyn_path(10, 20, 30, 100);
    let p_second = dyn_path(10, 20, 99, 200);
    // same (kind, word) key, stamped at the same instant: insertion order decides
    let first = signed_path(server, server, 7, 5, None, p_first);
    let second = signed_path(server, server, 8, 5, None, p_second);
    assert!(store.put_dyn_path_unsafe(&first, sig(70), 701, 10).is_ok());
    assert!(store.put_dyn_path_unsafe(&second, sig(71), 702, 10).is_ok());
    let got = store.get_dyn_path_unsafe(None, &p_first, 50).unwrap().unwrap();
    assert_eq!(got.data.data.data.path, p_second.path);
    assert_eq!(got.data.data.nonce, 702);
}

#[test]
fn expired_path_not_returned() {
    let server = account(1);
    let mut store = IpdisClientInner::new(server);
    let p = dyn_path(10, 20, 30, 100);
    let submission = signed_path(server, server, 7, 5, Some(40), p);
    assert!(store.put_dyn_path_unsafe(&submission, sig(77), 703, 10).is_ok());
    assert_eq!(store.get_dyn_path_unsafe(None, &p, 50).unwrap(), None);
    // an expired latest record hides nothing older that is still valid
    let older_still_valid = signed_path(server, server, 6, 5, None, p);
    let mut store2 = IpdisClientInner::new(server);
    assert!(store2.put_dyn_path_unsafe(&older_still_valid, sig(70), 704, 10).is_ok());
    assert!(store2.put_dyn_path_unsafe(&submission, sig(71), 705, 10).is_ok());
    let got = store2.get_dyn_path_unsafe(None, &p, 50).unwrap().unwrap();
    assert_eq!(got.data.data.nonce, 704);
}

#[test]
fn lookup_scoped_to_guarantee() {
    let server = account(1);
    let client = account(2);
    let mut store = IpdisClientInner::new(server);
    let p = dyn_path(10, 20, 30, 100);
    let submission = signed_path(client, server, 7, 5, None, p);
    assert!(store.put_dyn_path_unsafe(&submission, sig(77), 706, 10).is_ok());
    // the record was stored for the client, not for the server itself
    assert_eq!(store.get_dyn_path_unsafe(None, &p, 50).unwrap(), None);
    let got = store.get_dyn_path_unsafe(Some(&client), &p, 50).unwrap();
    assert!(got.is_some());
}

#[test]
fn delete_dyn_path_all_removes_kind() {
    let server = account(1);
    let mut store = IpdisClientInner::new(server);
    let p_doomed = dyn_path(10, 20, 30, 100);
    let p_other_kind = dyn_path(11, 20, 30, 100);
    assert!(store.put_dyn_path_unsafe(&signed_path(server, server, 7, 5, None, p_doomed), sig(70), 707, 10).is_ok());
    assert!(store.put_dyn_path_unsafe(&signed_path(server, server, 8, 5, None, p_other_kind), sig(71), 708, 10).is_ok());
    assert!(store.delete_dyn_path_all_unsafe(&hash(10)).is_ok());
    assert_eq!(store.get_dyn_path_unsafe(None, &p_doomed, 50).unwrap(), None);
    assert!(store.get_dyn_path_unsafe(None, &p_other_kind, 50).unwrap().is_some());
    // deleting a kind with no rows is not an error
    assert!(store.delete_dyn_path_all_unsafe(&hash(10)).is_ok());
}

#[test]
fn validated_put_requires_registration() {
    let server = account(1);
    let client = account(2);
    let mut store = IpdisClientInner::new(server);
    let p = dyn_path(10, 20, 30, 100);
    let submission = signed_path(client, server, 7, 5, None, p);
    // not registered: the validated tier refuses the write
    assert!(store.put_dyn_path(&submission, sig(77), 709, 50).is_err());
    assert_eq!(store.get_dyn_path_unsafe(Some(&client), &p, 60).unwrap(), None);
    // the privileged tier trusts the session and accepts it
    assert!(store.put_dyn_path_unsafe(&submission, sig(77), 710, 50).is_ok());
    assert!(store.get_dyn_path_unsafe(Some(&client), &p, 60).unwrap().is_some());
}
