//! The validated operation tier: each data operation first re-checks the
//! trust registry via `ensure_registered`, then performs the corresponding
//! privileged (`_unsafe`) operation. The privileged tier itself is for
//! already-authenticated sessions whose write path was gated by
//! counter-signing.

use vstd::prelude::*;

use crate::paths::is_latest_path_match;
use crate::idf::idf_log_records;
use crate::rows::idf_log_row_of;
use crate::rows::path_record_of;
use crate::rows::path_row_matches;
use crate::rows::path_row_of;
use crate::store::IpdisClientInner;
use crate::types::AccountRef;
use crate::types::DynPath;
use crate::types::Error;
use crate::types::GetIdfWords;
use crate::types::GuaranteeSigned;
use crate::types::GuarantorSigned;
use crate::types::Signature;
use crate::types::WordHash;

verus! {

impl IpdisClientInner {
    /// Store a path record for a registered (or self-authenticated)
    /// guarantee; rejected with `AuthorizationError` iff the submitter is
    /// not currently authorized under the asserted guarantor.
    pub fn put_dyn_path(
        &mut self,
        path: &GuaranteeSigned<DynPath>,
        guarantor_signature: Signature,
        nonce: u128,
        now: i64,
    ) -> (r: Result<(), Error>)
        ensures
            r is Ok <==> old(self).registration_ok(
                path.guarantee.account,
                path.data.guarantor,
                now,
            ),
            r is Ok ==> final(self).dyn_paths@ == old(self).dyn_paths@.push(
                path_row_of(old(self).server, guarantor_signature, nonce, now, *path),
            ),
            r is Err ==> *final(self) == *old(self) && r->Err_0 == Error::AuthorizationError,
            final(self).server == old(self).server,
            final(self).accounts_guarantees@ == old(self).accounts_guarantees@,
            final(self).idf_words@ == old(self).idf_words@,
            final(self).idf_logs@ == old(self).idf_logs@,
            old(self).wf() ==> final(self).wf(),
    {
        match self.ensure_registered(&path.guarantee.account, &path.data.guarantor, now) {
            Ok(()) => {},
            Err(e) => {
                return Err(e);
            },
        }
        self.put_dyn_path_unsafe(path, guarantor_signature, nonce, now)
    }

    /// Fetch the latest valid path record, re-validating the queried
    /// guarantee against the registry first.
    pub fn get_dyn_path(
        &self,
        guarantee: Option<&AccountRef>,
        path: &DynPath,
        now: i64,
    ) -> (r: Result<Option<GuarantorSigned<DynPath>>, Error>)
        ensures
            r is Ok <==> self.registration_ok(
                self.resolved_guarantee(guarantee),
                self.server,
                now,
            ),
            r is Err ==> r->Err_0 == Error::AuthorizationError,
            r is Ok ==> (r->Ok_0 is Some <==> exists|i: int|
                0 <= i < self.dyn_paths@.len() && path_row_matches(
                    #[trigger] self.dyn_paths@[i],
                    self.resolved_guarantee(guarantee),
                    self.server,
                    path.kind,
                    path.word,
                    now,
                )),
            r is Ok && r->Ok_0 is Some ==> exists|i: int|
                #[trigger] is_latest_path_match(
                    self.dyn_paths@,
                    self.resolved_guarantee(guarantee),
                    self.server,
                    path.kind,
                    path.word,
                    now,
                    i,
                ) && r->Ok_0->0 == path_record_of(self.dyn_paths@[i]),
    {
        let me = self.account_me();
        let g: AccountRef = match guarantee {
            Some(a) => *a,
            None => me,
        };
        match self.ensure_registered(&g, &me, now) {
            Ok(()) => {},
            Err(e) => {
                return Err(e);
            },
        }
        self.get_dyn_path_unsafe(guarantee, path, now)
    }

    /// Record one word occurrence for a registered (or self-authenticated)
    /// guarantee; rejected with `AuthorizationError` iff the submitter is
    /// not currently authorized under the asserted guarantor.
    pub fn put_idf_log(
        &mut self,
        word: &GuaranteeSigned<WordHash>,
        guarantor_signature: Signature,
        nonce: u128,
        now: i64,
    ) -> (r: Result<(), Error>)
        requires
            old(self).wf(),
        ensures
            final(self).wf(),
            r is Ok <==> old(self).registration_ok(
                word.guarantee.account,
                word.data.guarantor,
                now,
            ),
            r is Ok ==> final(self).idf_logs@ == old(self).idf_logs@.push(
                idf_log_row_of(old(self).server, guarantor_signature, nonce, now, *word),
            ),
            r is Err ==> *final(self) == *old(self) && r->Err_0 == Error::AuthorizationError,
            final(self).server == old(self).server,
            final(self).accounts_guarantees@ == old(self).accounts_guarantees@,
            final(self).dyn_paths@ == old(self).dyn_paths@,
    {
        match self.ensure_registered(&word.guarantee.account, &word.data.guarantor, now) {
            Ok(()) => {},
            Err(e) => {
                return Err(e);
            },
        }
        self.put_idf_log_unsafe(word, guarantor_signature, nonce, now)
    }

    /// Fetch the valid occurrence log for a word, re-validating the queried
    /// guarantee against the registry first.
    pub fn get_idf_logs(
        &self,
        guarantee: Option<&AccountRef>,
        query: &GetIdfWords,
        now: i64,
    ) -> (r: Result<Vec<GuarantorSigned<WordHash>>, Error>)
        ensures
            r is Ok <==> self.registration_ok(
                self.resolved_guarantee(guarantee),
                self.server,
                now,
            ),
            r is Err ==> r->Err_0 == Error::AuthorizationError,
            r is Ok ==> r->Ok_0@ == idf_log_records(
                self.idf_logs@,
                self.resolved_guarantee(guarantee),
                self.server,
                query.word,
                now,
            ),
    {
        let me = self.account_me();
        let g: AccountRef = match guarantee {
            Some(a) => *a,
            None => me,
        };
        match self.ensure_registered(&g, &me, now) {
            Ok(()) => {},
            Err(e) => {
                return Err(e);
            },
        }
        self.get_idf_logs_unsafe(guarantee, query, now)
    }
}

} // verus!
