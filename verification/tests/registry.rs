use ipdis::store::IpdisClientInner;
use ipdis::types::AccountRef;
use ipdis::types::Error;
use ipdis::types::GuaranteeSigned;
use ipdis::types::Identity;
use ipdis::types::Metadata;
use ipdis::types::Signature;

fn account(id: u64) -> AccountRef {
    AccountRef { public_key: id }
}

fn sig(v: u64) -> Signature {
    Signature { value: v }
}

fn signed_registration(
    client: AccountRef,
    server: AccountRef,
    nonce: u128,
    created: i64,
    expiration: Option<i64>,
) -> GuaranteeSigned<AccountRef> {
    GuaranteeSigned {
        guarantee: Identity { account: client, signature: sig(client.public_key + 1000) },
        data: Metadata {
            nonce,
            created_date: created,
            expiration_date: expiration,
            guarantor: server,
            data: server,
        },
    }
}

#[test]
fn self_authentication_always_succeeds() {
    let server = account(1);
    let store = IpdisClientInner::new(server);
    assert!(store.ensure_registered(&server, &server, 50).is_ok());
    assert!(store.ensure_registered(&server, &server, i64::MIN).is_ok());
}

#[test]
fn foreign_guarantor_rejected() {
    let server = account(1);
    let store = IpdisClientInner::new(server);
    let other = account(2);
    assert_eq!(
        store.ensure_registered(&other, &other, 50),
        Err(Error::AuthorizationError)
    );
    assert_eq!(
        store.ensure_registered(&server, &other, 50),
        Err(Error::AuthorizationError)
    );
}

#[test]
fn unregistered_guarantee_rejected() {
    let server = account(1);
    let store = IpdisClientInner::new(server);
    let client = account(2);
    assert_eq!(
        store.ensure_registered(&client, &server, 50),
        Err(Error::AuthorizationError)
    );
}

#[test]
fn register_then_check_then_revoke() {
    let server = account(1);
    let client = account(2);
    let mut store = IpdisClientInner::new(server);
    let submission = signed_registration(client, server, 7, 10, Some(100));
    // the server stamps the row: fresh nonce 500, current time 10
    assert!(store.add_guarantee_unsafe(&submission, sig(77), 500, 10).is_ok());
    // inside the validity window
    assert!(store.ensure_registered(&client, &server, 50).is_ok());
    // revocation removes every registration of the client
    assert!(store.delete_guarantee(&client).is_ok());
    assert_eq!(
        store.ensure_registered(&client, &server, 50),
        Err(Error::AuthorizationError)
    );
    // self-authentication is unaffected by revocation
    assert!(store.ensure_registered(&server, &server, 50).is_ok());
}

#[test]
fn registration_with_wrong_guarantor_not_accepted() {
    let server = account(1);
    let client = account(2);
    let impostor = account(3);
    let mut store = IpdisClientInner::new(server);
    let mut submission = signed_registration(client, server, 7, 10, None);
    submission.data.guarantor = impostor;
    assert_eq!(
        store.add_guarantee_unsafe(&submission, sig(77), 501, 10),
        Err(Error::AuthorizationError)
    );
    assert_eq!(
        store.ensure_registered(&client, &server, 50),
        Err(Error::AuthorizationError)
    );
}

#[test]
fn expired_registration_rejected() {
    let server = account(1);
    let client = account(2);
    let mut store = IpdisClientInner::new(server);
    let submission = signed_registration(client, server, 7, 10, Some(40));
    assert!(store.add_guarantee_unsafe(&submission, sig(77), 502, 10).is_ok());
    // expiration date lies in the past
    assert_eq!(
        store.ensure_registered(&client, &server, 50),
        Err(Error::AuthorizationError)
    );
    // at the expiration instant itself the registration still holds
    assert!(store.ensure_registered(&client, &server, 40).is_ok());
}

#[test]
fn absent_expiration_never_expires() {
    let server = account(1);
    let client = account(2);
    let mut store = IpdisClientInner::new(server);
    let submission = signed_registration(client, server, 7, 10, None);
    assert!(store.add_guarantee_unsafe(&submission, sig(77), 503, 10).is_ok());
    assert!(store.ensure_registered(&client, &server, 11).is_ok());
    assert!(store.ensure_registered(&client, &server, i64::MAX).is_ok());
}

#[test]
fn registration_not_yet_started_rejected() {
    let server = account(1);
    let client = account(2);
    let mut store = IpdisClientInner::new(server);
    let submission = signed_registration(client, server, 7, 100, None);
    // stamped at time 100: the server's clock, not the payload, decides
    assert!(store.add_guarantee_unsafe(&submission, sig(77), 504, 100).is_ok());
    // the creation date must lie strictly before the check
    assert_eq!(
        store.ensure_registered(&client, &server, 100),
        Err(Error::AuthorizationError)
    );
    assert!(store.ensure_registered(&client, &server, 101).is_ok());
}

#[test]
fn replayed_registration_is_its_own_event() {
    let server = account(1);
    let client = account(2);
    let mut store = IpdisClientInner::new(server);
    let submission = signed_registration(client, server, 7, 10, None);
    // the same submission accepted twice: each event gets its own stamps
    assert!(store.add_guarantee_unsafe(&submission, sig(77), 600, 10).is_ok());
    assert!(store.add_guarantee_unsafe(&submission, sig(78), 601, 12).is_ok());
    assert_eq!(store.accounts_guarantees.len(), 2);
    assert_eq!(store.accounts_guarantees[0].nonce, 600);
    assert_eq!(store.accounts_guarantees[1].nonce, 601);
    assert_eq!(store.accounts_guarantees[0].created_date, 10);
    assert_eq!(store.accounts_guarantees[1].created_date, 12);
    assert_ne!(store.accounts_guarantees[0], store.accounts_guarantees[1]);
}
