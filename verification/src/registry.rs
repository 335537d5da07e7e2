//! The trust registry: registration and revocation of guarantee→guarantor
//! relationships, and the authorization check every gated operation rests on.

use vstd::prelude::*;

use crate::rows::AccountsGuarantee;
use crate::rows::guarantee_row_of;
use crate::rows::lemma_regs_without_push;
use crate::rows::reg_matches;
use crate::rows::regs_without;
use crate::store::IpdisClientInner;
use crate::types::AccountRef;
use crate::types::Error;
use crate::types::GuaranteeSigned;
use crate::types::Signature;
use crate::types::check_time_valid;
use crate::types::sign_as_guarantor;

verus! {

/// Whether some registration row authorizes `guarantee` under `guarantor` at
/// time `now`.
pub open spec fn registered_in(
    regs: Seq<AccountsGuarantee>,
    guarantee: AccountRef,
    guarantor: AccountRef,
    now: i64,
) -> bool {
    exists|i: int| 0 <= i < regs.len() && reg_matches(#[trigger] regs[i], guarantee, guarantor, now)
}

impl IpdisClientInner {
    /// Whether this store authorizes `guarantee` under `guarantor` at `now`:
    /// the asserted guarantor must be this server itself, and the guarantee
    /// must either be the server (self-authentication) or hold a currently
    /// valid registration row.
    pub open spec fn registration_ok(
        self,
        guarantee: AccountRef,
        guarantor: AccountRef,
        now: i64,
    ) -> bool {
        &&& guarantor == self.server
        &&& (guarantee == guarantor || registered_in(
            self.accounts_guarantees@,
            guarantee,
            guarantor,
            now,
        ))
    }

    /// Authorize a request: fails with `AuthorizationError` unless the
    /// asserted guarantor is this server and the guarantee is the server
    /// itself or currently registered.
    pub fn ensure_registered(&self, guarantee: &AccountRef, guarantor: &AccountRef, now: i64) -> (r:
        Result<(), Error>)
        ensures
            r is Ok <==> self.registration_ok(*guarantee, *guarantor, now),
            r is Err ==> r->Err_0 == Error::AuthorizationError,
    {
        let me = self.account_me();
        if *guarantor != me {
            // the caller asserted somebody else as the storage operator
            return Err(Error::AuthorizationError);
        }
        // self-authentication needs no lookup
        if *guarantee == *guarantor {
            return Ok(());
        }
        let n = self.accounts_guarantees.len();
        let mut i: usize = 0;
        while i < n
            invariant
                n == self.accounts_guarantees@.len(),
                i <= n,
                *guarantor == self.server,
                forall|j: int|
                    0 <= j < i ==> !reg_matches(
                        #[trigger] self.accounts_guarantees@[j],
                        *guarantee,
                        *guarantor,
                        now,
                    ),
            decreases n - i,
        {
            let row = self.accounts_guarantees[i];
            if row.guarantee == *guarantee && row.guarantor == *guarantor && check_time_valid(
                row.created_date,
                row.expiration_date,
                now,
            ) {
                proof {
                    assert(reg_matches(
                        self.accounts_guarantees@[i as int],
                        *guarantee,
                        *guarantor,
                        now,
                    ));
                }
                return Ok(());
            }
            i += 1;
        }
        Err(Error::AuthorizationError)
    }

    /// Register a guarantee: counter-sign the submitted record as this
    /// server — stamping it with the freshly generated `nonce` and the
    /// current time `now` — and append one registration row. Nothing
    /// existing is overwritten, and the submission is rejected iff it
    /// asserts another guarantor.
    pub fn add_guarantee_unsafe(
        &mut self,
        guarantee: &GuaranteeSigned<AccountRef>,
        guarantor_signature: Signature,
        nonce: u128,
        now: i64,
    ) -> (r: Result<(), Error>)
        ensures
            r is Ok <==> guarantee.data.guarantor == old(self).server,
            r is Ok ==> final(self).accounts_guarantees@ == old(self).accounts_guarantees@.push(
                guarantee_row_of(old(self).server, guarantor_signature, nonce, now, *guarantee),
            ),
            r is Err ==> *final(self) == *old(self) && r->Err_0 == Error::AuthorizationError,
            final(self).server == old(self).server,
            final(self).dyn_paths@ == old(self).dyn_paths@,
            final(self).idf_words@ == old(self).idf_words@,
            final(self).idf_logs@ == old(self).idf_logs@,
            old(self).wf() ==> final(self).wf(),
    {
        let me = self.account_me();
        let signed = match sign_as_guarantor(me, guarantor_signature, nonce, now, *guarantee) {
            Ok(s) => s,
            Err(e) => {
                return Err(e);
            },
        };
        let row = AccountsGuarantee {
            guarantee: signed.data.guarantee.account,
            guarantor: signed.guarantor.account,
            guarantee_signature: signed.data.guarantee.signature,
            guarantor_signature: signed.guarantor.signature,
            nonce: signed.data.data.nonce,
            created_date: signed.data.data.created_date,
            expiration_date: signed.data.data.expiration_date,
        };
        self.accounts_guarantees.push(row);
        Ok(())
    }

    /// Revoke every registration of `guarantee`, whoever issued it. Rows
    /// already persisted under that guarantee remain; only future
    /// authorization checks are affected.
    pub fn delete_guarantee(&mut self, guarantee: &AccountRef) -> (r: Result<(), Error>)
        ensures
            r is Ok,
            final(self).accounts_guarantees@ == regs_without(
                old(self).accounts_guarantees@,
                *guarantee,
            ),
            final(self).server == old(self).server,
            final(self).dyn_paths@ == old(self).dyn_paths@,
            final(self).idf_words@ == old(self).idf_words@,
            final(self).idf_logs@ == old(self).idf_logs@,
            old(self).wf() ==> final(self).wf(),
    {
        let n = self.accounts_guarantees.len();
        let mut kept: Vec<AccountsGuarantee> = Vec::new();
        let mut i: usize = 0;
        while i < n
            invariant
                *self == *old(self),
                n == self.accounts_guarantees@.len(),
                i <= n,
                kept@ == regs_without(self.accounts_guarantees@.subrange(0, i as int), *guarantee),
            decreases n - i,
        {
            proof {
                assert(self.accounts_guarantees@.subrange(0, i + 1)
                    =~= self.accounts_guarantees@.subrange(0, i as int).push(
                    self.accounts_guarantees@[i as int],
                ));
                lemma_regs_without_push(
                    self.accounts_guarantees@.subrange(0, i as int),
                    self.accounts_guarantees@[i as int],
                    *guarantee,
                );
            }
            let row = self.accounts_guarantees[i];
            if row.guarantee != *guarantee {
                kept.push(row);
            }
            i += 1;
        }
        proof {
            assert(self.accounts_guarantees@.subrange(0, n as int)
                =~= self.accounts_guarantees@);
        }
        self.accounts_guarantees = kept;
        Ok(())
    }
}

} // verus!
