//! The path store: append-only persistence and latest-valid lookup of
//! content-addressed path records, scoped to a guarantee/guarantor pair.

use vstd::prelude::*;

use crate::rows::DynPathRow;
use crate::rows::lemma_paths_without_kind_push;
use crate::rows::path_record_of;
use crate::rows::path_row_matches;
use crate::rows::path_row_of;
use crate::rows::paths_without_kind;
use crate::store::IpdisClientInner;
use crate::types::AccountRef;
use crate::types::ContentHash;
use crate::types::DynPath;
use crate::types::Error;
use crate::types::GuaranteeSigned;
use crate::types::GuarantorSigned;
use crate::types::Identity;
use crate::types::Metadata;
use crate::types::PathData;
use crate::types::Signature;
use crate::types::check_time_valid;
use crate::types::sign_as_guarantor;

verus! {

/// The most recently inserted row answering the query: it matches, and no
/// later row does. "Most recent" goes by insertion order, not by
/// `created_date`, since two records may share a timestamp.
pub open spec fn is_latest_path_match(
    rows: Seq<DynPathRow>,
    guarantee: AccountRef,
    guarantor: AccountRef,
    kind: ContentHash,
    word: ContentHash,
    now: i64,
    i: int,
) -> bool {
    &&& 0 <= i < rows.len()
    &&& path_row_matches(rows[i], guarantee, guarantor, kind, word, now)
    &&& forall|j: int|
        i < j < rows.len() ==> !path_row_matches(#[trigger] rows[j], guarantee, guarantor, kind, word, now)
}

impl IpdisClientInner {
    /// The account a read is scoped to: the one given, or this server's own
    /// account when the caller asked for a self-lookup.
    pub open spec fn resolved_guarantee(self, guarantee: Option<&AccountRef>) -> AccountRef {
        if guarantee is Some {
            *guarantee->0
        } else {
            self.server
        }
    }

    /// Store a path record: counter-sign the submission as this server,
    /// stamp it with the fresh `nonce` and the current time `now`, and
    /// append one row. Append semantics: rows for the same `(kind, word)`
    /// key accumulate, nothing is overwritten.
    pub fn put_dyn_path_unsafe(
        &mut self,
        path: &GuaranteeSigned<DynPath>,
        guarantor_signature: Signature,
        nonce: u128,
        now: i64,
    ) -> (r: Result<(), Error>)
        ensures
            r is Ok <==> path.data.guarantor == old(self).server,
            r is Ok ==> final(self).dyn_paths@ == old(self).dyn_paths@.push(
                path_row_of(old(self).server, guarantor_signature, nonce, now, *path),
            ),
            r is Err ==> *final(self) == *old(self) && r->Err_0 == Error::AuthorizationError,
            final(self).server == old(self).server,
            final(self).accounts_guarantees@ == old(self).accounts_guarantees@,
            final(self).idf_words@ == old(self).idf_words@,
            final(self).idf_logs@ == old(self).idf_logs@,
            old(self).wf() ==> final(self).wf(),
    {
        let me = self.account_me();
        let signed = match sign_as_guarantor(me, guarantor_signature, nonce, now, *path) {
            Ok(s) => s,
            Err(e) => {
                return Err(e);
            },
        };
        let row = DynPathRow {
            nonce: signed.data.data.nonce,
            guarantee: signed.data.guarantee.account,
            guarantor: signed.guarantor.account,
            guarantee_signature: signed.data.guarantee.signature,
            guarantor_signature: signed.guarantor.signature,
            created_date: signed.data.data.created_date,
            expiration_date: signed.data.data.expiration_date,
            kind: signed.data.data.data.kind,
            word: signed.data.data.data.word,
            path: signed.data.data.data.path.value,
            len: signed.data.data.data.path.len,
        };
        self.dyn_paths.push(row);
        Ok(())
    }

    /// Fetch the most recently inserted, currently valid path record for
    /// `(guarantee, kind, word)` under this server; `guarantee` defaults to
    /// the server's own account. `None` when no row qualifies.
    pub fn get_dyn_path_unsafe(
        &self,
        guarantee: Option<&AccountRef>,
        path: &DynPath,
        now: i64,
    ) -> (r: Result<Option<GuarantorSigned<DynPath>>, Error>)
        ensures
            r is Ok,
            r->Ok_0 is Some <==> exists|i: int|
                0 <= i < self.dyn_paths@.len() && path_row_matches(
                    #[trigger] self.dyn_paths@[i],
                    self.resolved_guarantee(guarantee),
                    self.server,
                    path.kind,
                    path.word,
                    now,
                ),
            r->Ok_0 is Some ==> exists|i: int|
                #[trigger] is_latest_path_match(
                    self.dyn_paths@,
                    self.resolved_guarantee(guarantee),
                    self.server,
                    path.kind,
                    path.word,
                    now,
                    i,
                ) && r->Ok_0->0 == path_record_of(self.dyn_paths@[i]),
    {
        let guarantor = self.account_me();
        let g: AccountRef = match guarantee {
            Some(a) => *a,
            None => guarantor,
        };
        let mut i: usize = self.dyn_paths.len();
        while i > 0
            invariant
                i <= self.dyn_paths@.len(),
                guarantor == self.server,
                g == self.resolved_guarantee(guarantee),
                forall|j: int|
                    i <= j < self.dyn_paths@.len() ==> !path_row_matches(
                        #[trigger] self.dyn_paths@[j],
                        g,
                        self.server,
                        path.kind,
                        path.word,
                        now,
                    ),
            decreases i,
        {
            i -= 1;
            let row = self.dyn_paths[i];
            if row.guarantee == g && row.guarantor == guarantor && row.kind == path.kind
                && row.word == path.word && check_time_valid(
                row.created_date,
                row.expiration_date,
                now,
            ) {
                let record = GuarantorSigned {
                    guarantor: Identity {
                        account: row.guarantor,
                        signature: row.guarantor_signature,
                    },
                    data: GuaranteeSigned {
                        guarantee: Identity {
                            account: row.guarantee,
                            signature: row.guarantee_signature,
                        },
                        data: Metadata {
                            nonce: row.nonce,
                            created_date: row.created_date,
                            expiration_date: row.expiration_date,
                            guarantor: row.guarantor,
                            data: DynPath {
                                kind: row.kind,
                                word: row.word,
                                path: PathData { value: row.path, len: row.len },
                            },
                        },
                    },
                };
                proof {
                    assert(path_row_matches(
                        self.dyn_paths@[i as int],
                        g,
                        self.server,
                        path.kind,
                        path.word,
                        now,
                    ));
                    assert(is_latest_path_match(
                        self.dyn_paths@,
                        g,
                        self.server,
                        path.kind,
                        path.word,
                        now,
                        i as int,
                    ));
                    assert(record == path_record_of(self.dyn_paths@[i as int]));
                }
                return Ok(Some(record));
            }
        }
        Ok(None)
    }

    /// Bulk-remove every path row of one `kind`, across all guarantees and
    /// guarantors. No error when none exist.
    pub fn delete_dyn_path_all_unsafe(&mut self, kind: &ContentHash) -> (r: Result<(), Error>)
        ensures
            r is Ok,
            final(self).dyn_paths@ == paths_without_kind(old(self).dyn_paths@, *kind),
            final(self).server == old(self).server,
            final(self).accounts_guarantees@ == old(self).accounts_guarantees@,
            final(self).idf_words@ == old(self).idf_words@,
            final(self).idf_logs@ == old(self).idf_logs@,
            old(self).wf() ==> final(self).wf(),
    {
        let n = self.dyn_paths.len();
        let mut kept: Vec<DynPathRow> = Vec::new();
        let mut i: usize = 0;
        while i < n
            invariant
                *self == *old(self),
                n == self.dyn_paths@.len(),
                i <= n,
                kept@ == paths_without_kind(self.dyn_paths@.subrange(0, i as int), *kind),
            decreases n - i,
        {
            proof {
                assert(self.dyn_paths@.subrange(0, i + 1) =~= self.dyn_paths@.subrange(
                    0,
                    i as int,
                ).push(self.dyn_paths@[i as int]));
                lemma_paths_without_kind_push(
                    self.dyn_paths@.subrange(0, i as int),
                    self.dyn_paths@[i as int],
                    *kind,
                );
            }
            let row = self.dyn_paths[i];
            if row.kind != *kind {
                kept.push(row);
            }
            i += 1;
        }
        proof {
            assert(self.dyn_paths@.subrange(0, n as int) =~= self.dyn_paths@);
        }
        self.dyn_paths = kept;
        Ok(())
    }
}

} // verus!
