//! The identity and signature envelope: account references, single-signer
//! identities, content hashes, and the nested `GuaranteeSigned` /
//! `GuarantorSigned` wrappers around a `Metadata`-stamped payload.

use vstd::prelude::*;

verus! {

/// Public identity of a party: the public key alone.
#[derive(Clone, Copy, PartialEq, Eq, Structural, Debug)]
pub struct AccountRef {
    pub public_key: u64,
}

/// An opaque signature value produced by an external signer.
#[derive(Clone, Copy, PartialEq, Eq, Structural, Debug)]
pub struct Signature {
    pub value: u64,
}

/// A single signer's stamp over a payload: who signed, and with what.
#[derive(Clone, Copy, PartialEq, Eq, Structural, Debug)]
pub struct Identity {
    pub account: AccountRef,
    pub signature: Signature,
}

/// A content hash: the canonical identity of a piece of content,
/// independent of its raw bytes.
#[derive(Clone, Copy, PartialEq, Eq, Structural, Debug)]
pub struct ContentHash {
    pub value: u128,
}

/// A hashed text unit: a language code together with the message hash.
#[derive(Clone, Copy, PartialEq, Eq, Structural, Debug)]
pub struct TextHash {
    pub lang: u64,
    pub msg: ContentHash,
}

/// Canonical content-hash identity of a word: two equal `WordHash` values
/// denote the same logical word, however many times it was stored.
#[derive(Clone, Copy, PartialEq, Eq, Structural, Debug)]
pub struct WordHash {
    pub kind: ContentHash,
    pub text: TextHash,
}

/// A storage path: the hash naming the location and the content length.
#[derive(Clone, Copy, PartialEq, Eq, Structural, Debug)]
pub struct PathData {
    pub value: ContentHash,
    pub len: u64,
}

/// A content-addressed path record associated with a `(kind, word)` key.
#[derive(Clone, Copy, PartialEq, Eq, Structural, Debug)]
pub struct DynPath {
    pub kind: ContentHash,
    pub word: ContentHash,
    pub path: PathData,
}

/// Nonce, creation and expiration timestamps, and the intended guarantor,
/// wrapped around a payload. Timestamps are a fixed unit since an epoch.
#[derive(Clone, Copy, PartialEq, Eq, Debug)]
pub struct Metadata<T> {
    pub nonce: u128,
    pub created_date: i64,
    pub expiration_date: Option<i64>,
    pub guarantor: AccountRef,
    pub data: T,
}

/// A metadata-stamped payload signed by the submitting party (the guarantee).
#[derive(Clone, Copy, PartialEq, Eq, Debug)]
pub struct GuaranteeSigned<T> {
    pub guarantee: Identity,
    pub data: Metadata<T>,
}

/// A guarantee-signed payload counter-signed by the storage operator
/// (the guarantor): the double-signed envelope that is persisted.
#[derive(Clone, Copy, PartialEq, Eq, Debug)]
pub struct GuarantorSigned<T> {
    pub guarantor: Identity,
    pub data: GuaranteeSigned<T>,
}

/// A query for the occurrence log of one word.
#[derive(Clone, Copy, PartialEq, Eq, Structural, Debug)]
pub struct GetIdfWords {
    pub word: WordHash,
}

/// The error taxonomy of the store.
#[derive(Clone, Copy, PartialEq, Eq, Structural, Debug)]
pub enum Error {
    /// Guarantor mismatch with the server's own identity, or guarantee not
    /// currently registered / expired / not yet started.
    AuthorizationError,
    /// Malformed stored signature material discovered on read.
    SignatureError,
    /// Backend failure: connection loss, constraint violation, aborted
    /// transaction.
    BackendError,
}

/// A record is valid at `now` iff it was created strictly before `now` and
/// has not yet expired; an absent expiration date never expires.
pub open spec fn time_valid(created_date: i64, expiration_date: Option<i64>, now: i64) -> bool {
    &&& created_date < now
    &&& (expiration_date is None || expiration_date->0 >= now)
}

/// Runtime check for `time_valid`.
pub fn check_time_valid(created_date: i64, expiration_date: Option<i64>, now: i64) -> (r: bool)
    ensures
        r == time_valid(created_date, expiration_date, now),
{
    created_date < now && (match expiration_date {
        None => true,
        Some(e) => e >= now,
    })
}

/// The double-signed envelope that counter-signing produces: the server
/// re-mints the metadata, stamping the freshly generated `nonce` and the
/// current time `now` as the record's creation date, while keeping the
/// submitter's identity, payload and requested expiration date.
pub open spec fn counter_signed<T>(
    server: AccountRef,
    signature: Signature,
    nonce: u128,
    now: i64,
    data: GuaranteeSigned<T>,
) -> GuarantorSigned<T> {
    GuarantorSigned {
        guarantor: Identity { account: server, signature },
        data: GuaranteeSigned {
            guarantee: data.guarantee,
            data: Metadata {
                nonce,
                created_date: now,
                expiration_date: data.data.expiration_date,
                guarantor: server,
                data: data.data.data,
            },
        },
    }
}

/// Counter-sign a guarantee-signed payload as the storage operator `server`:
/// succeeds iff the submitter addressed this server as its guarantor, and
/// then stamps the record with the fresh `nonce` and the current time `now`.
/// The signature value and the two stamps come from the external signer,
/// nonce source and clock.
pub fn sign_as_guarantor<T>(
    server: AccountRef,
    signature: Signature,
    nonce: u128,
    now: i64,
    data: GuaranteeSigned<T>,
) -> (r: Result<GuarantorSigned<T>, Error>)
    ensures
        r is Ok <==> data.data.guarantor == server,
        r is Ok ==> r->Ok_0 == counter_signed(server, signature, nonce, now, data),
        r is Err ==> r->Err_0 == Error::AuthorizationError,
{
    if data.data.guarantor == server {
        Ok(
            GuarantorSigned {
                guarantor: Identity { account: server, signature },
                data: GuaranteeSigned {
                    guarantee: data.guarantee,
                    data: Metadata {
                        nonce,
                        created_date: now,
                        expiration_date: data.data.expiration_date,
                        guarantor: server,
                        data: data.data.data,
                    },
                },
            },
        )
    } else {
        Err(Error::AuthorizationError)
    }
}

} // verus!
