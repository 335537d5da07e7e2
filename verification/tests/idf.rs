use ipdis::store::IpdisClientInner;
use ipdis::types::AccountRef;
use ipdis::types::ContentHash;
use ipdis::types::Error;
use ipdis::types::GetIdfWords;
use ipdis::types::GuaranteeSigned;
use ipdis::types::Identity;
use ipdis::types::Metadata;
use ipdis::types::Signature;
use ipdis::types::TextHash;
use ipdis::types::WordHash;

fn account(id: u64) -> AccountRef {
    AccountRef { public_key: id }
}

fn sig(v: u64) -> Signature {
    Signature { value: v }
}

fn hash(v: u128) -> ContentHash {
    ContentHash { value: v }
}

fn word(kind: u128, lang: u64, msg: u128) -> WordHash {
    WordHash { kind: hash(kind), text: TextHash { lang, msg: hash(msg) } }
}

fn signed_word(
    submitter: AccountRef,
    server: AccountRef,
    nonce: u128,
    created: i64,
    expiration: Option<i64>,
    w: WordHash,
) -> GuaranteeSigned<WordHash> {
    GuaranteeSigned {
        guarantee: Identity { account: submitter, signature: sig(submitter.public_key + 3000) },
        data: Metadata {
            nonce,
            created_date: created,
            expiration_date: expiration,
            guarantor: server,
            data: w,
        },
    }
}

#[test]
fn sequential_puts_accumulate() {
    let server = account(1);
    let mut store = IpdisClientInner::new(server);
    let w = word(10, 3, 20);
    assert_eq!(store.get_idf_count_unsafe(&w), Ok(0));
    for n in 1..=5u128 {
        let submission = signed_word(server, server, n, 5, None, w);
        assert!(store.put_idf_log_unsafe(&submission, sig(70 + n as u64), 800 + n, 10).is_ok());
        assert_eq!(store.get_idf_count_unsafe(&w), Ok(n as usize));
    }
}

#[test]
fn counts_are_per_word() {
    let server = account(1);
    let mut store = IpdisClientInner::new(server);
    let w_first = word(10, 3, 20);
    let w_second = word(10, 3, 21);
    let w_other_lang = word(10, 4, 20);
    assert!(store.put_idf_log_unsafe(&signed_word(server, server, 1, 5, None, w_first), sig(71), 801, 10).is_ok());
    assert!(store.put_idf_log_unsafe(&signed_word(server, server, 2, 5, None, w_first), sig(72), 802, 10).is_ok());
    assert!(store.put_idf_log_unsafe(&signed_word(server, server, 3, 5, None, w_second), sig(73), 803, 10).is_ok());
    assert_eq!(store.get_idf_count_unsafe(&w_first), Ok(2));
    assert_eq!(store.get_idf_count_unsafe(&w_second), Ok(1));
    assert_eq!(store.get_idf_count_unsafe(&w_other_lang), Ok(0));
}

#[test]
fn overlapping_writers_lose_no_update() {
    let server = account(1);
    let client_a = account(2);
    let client_b = account(3);
    let mut store = IpdisClientInner::new(server);
    let w = word(10, 3, 20);
    // two independent callers, same word, overlapping in time: operations
    // serialize on exclusive access to the store, so both writes land
    let from_a = signed_word(client_a, server, 1, 5, None, w);
    let from_b = signed_word(client_b, server, 2, 5, None, w);
    assert!(store.put_idf_log_unsafe(&from_a, sig(71), 804, 10).is_ok());
    assert!(store.put_idf_log_unsafe(&from_b, sig(72), 805, 10).is_ok());
    assert_eq!(store.get_idf_count_unsafe(&w), Ok(2));
}

#[test]
fn wrong_guarantor_changes_nothing() {
    let server = account(1);
    let impostor = account(9);
    let mut store = IpdisClientInner::new(server);
    let w = word(10, 3, 20);
    let mut submission = signed_word(server, server, 1, 5, None, w);
    submission.data.guarantor = impostor;
    assert_eq!(
        store.put_idf_log_unsafe(&submission, sig(71), 806, 10),
        Err(Error::AuthorizationError)
    );
    assert_eq!(store.get_idf_count_unsafe(&w), Ok(0));
}

#[test]
fn get_idf_logs_returns_stored_envelopes() {
    let server = account(1);
    let mut store = IpdisClientInner::new(server);
    let w = word(10, 3, 20);
    let first = signed_word(server, server, 1, 5, None, w);
    let expiring = signed_word(server, server, 2, 5, Some(40), w);
    assert!(store.put_idf_log_unsafe(&first, sig(71), 807, 10).is_ok());
    assert!(store.put_idf_log_unsafe(&expiring, sig(72), 808, 10).is_ok());
    let query = GetIdfWords { word: w };
    let logs = store.get_idf_logs_unsafe(None, &query, 50).unwrap();
    // the expired row is filtered out of the read, though it still counts
    assert_eq!(logs.len(), 1);
    assert_eq!(logs[0].guarantor.account, server);
    assert_eq!(logs[0].guarantor.signature, sig(71));
    // the record carries the payload and the server's stamps
    assert_eq!(logs[0].data.guarantee, first.guarantee);
    assert_eq!(logs[0].data.data.data, w);
    assert_eq!(logs[0].data.data.nonce, 807);
    assert_eq!(logs[0].data.data.created_date, 10);
    assert_eq!(store.get_idf_count_unsafe(&w), Ok(2));
}

#[test]
fn delete_idf_all_clears_kind() {
    let server = account(1);
    let mut store = IpdisClientInner::new(server);
    let w_doomed = word(10, 3, 20);
    let w_same_kind = word(10, 3, 21);
    let w_other_kind = word(11, 3, 20);
    assert!(store.put_idf_log_unsafe(&signed_word(server, server, 1, 5, None, w_doomed), sig(71), 809, 10).is_ok());
    assert!(store.put_idf_log_unsafe(&signed_word(server, server, 2, 5, None, w_same_kind), sig(72), 810, 10).is_ok());
    assert!(store.put_idf_log_unsafe(&signed_word(server, server, 3, 5, None, w_other_kind), sig(73), 811, 10).is_ok());
    assert!(store.delete_idf_all_unsafe(&hash(10)).is_ok());
    assert_eq!(store.get_idf_count_unsafe(&w_doomed), Ok(0));
    assert_eq!(store.get_idf_count_unsafe(&w_same_kind), Ok(0));
    assert_eq!(store.get_idf_count_unsafe(&w_other_kind), Ok(1));
    let logs = store.get_idf_logs_unsafe(None, &GetIdfWords { word: w_doomed }, 50).unwrap();
    assert!(logs.is_empty());
    // a fresh write after the bulk delete starts counting from one again
    assert!(store.put_idf_log_unsafe(&signed_word(server, server, 4, 5, None, w_doomed), sig(74), 812, 10).is_ok());
    assert_eq!(store.get_idf_count_unsafe(&w_doomed), Ok(1));
}

#[test]
fn registered_client_word_scenario() {
    let server = account(1);
    let client = account(2);
    let mut store = IpdisClientInner::new(server);
    // register the client under this server
    let registration = GuaranteeSigned {
        guarantee: Identity { account: client, signature: sig(3002) },
        data: Metadata {
            nonce: 100,
            created_date: 5,
            expiration_date: None,
            guarantor: server,
            data: server,
        },
    };
    assert!(store.add_guarantee_unsafe(&registration, sig(50), 900, 10).is_ok());
    // the client submits the same word three times through the validated tier
    let w = word(10, 3, 20);
    for n in 1..=3u128 {
        let submission = signed_word(client, server, n, 5, None, w);
        assert!(store.put_idf_log(&submission, sig(70 + n as u64), 900 + n, 40).is_ok());
    }
    assert_eq!(store.get_idf_count_unsafe(&w), Ok(3));
    // revoke the client: the aggregate is server-owned and still readable
    assert!(store.delete_guarantee(&client).is_ok());
    assert_eq!(store.get_idf_count_unsafe(&w), Ok(3));
    // but any new write through the client now fails authorization
    let late = signed_word(client, server, 9, 5, None, w);
    assert_eq!(
        store.put_idf_log(&late, sig(80), 910, 41),
        Err(Error::AuthorizationError)
    );
    assert_eq!(store.get_idf_count_unsafe(&w), Ok(3));
}

#[test]
fn validated_reads_check_registration() {
    let server = account(1);
    let client = account(2);
    let mut store = IpdisClientInner::new(server);
    let w = word(10, 3, 20);
    assert!(store.put_idf_log_unsafe(&signed_word(server, server, 1, 5, None, w), sig(71), 811, 10).is_ok());
    let query = GetIdfWords { word: w };
    // the validated read re-checks the registry for the queried guarantee
    assert_eq!(
        store.get_idf_logs(Some(&client), &query, 50),
        Err(Error::AuthorizationError)
    );
    // a self-scoped validated read passes
    assert_eq!(store.get_idf_logs(None, &query, 50).unwrap().len(), 1);
}
