//! The store itself: the server's own account plus the four record families,
//! with the consistency invariant tying the materialized per-word counts to
//! the append-only occurrence log.

use vstd::prelude::*;

use crate::rows::AccountsGuarantee;
use crate::rows::DynPathRow;
use crate::rows::IdfLogRow;
use crate::rows::IdfWordRow;
use crate::rows::count_key;
use crate::rows::log_word;
use crate::types::AccountRef;
use crate::types::WordHash;

verus! {

/// Whether some aggregate row counts the word `w`.
pub open spec fn has_word(words: Seq<IdfWordRow>, w: WordHash) -> bool {
    exists|i: int| 0 <= i < words.len() && (#[trigger] words[i]).key() == w
}

/// The word/IDF engine's consistency: aggregate keys are pairwise distinct,
/// every aggregate's count equals the number of log rows for its key, and
/// every log row has an aggregate.
pub open spec fn idf_consistent(words: Seq<IdfWordRow>, logs: Seq<IdfLogRow>) -> bool {
    &&& (forall|i: int, j: int|
        0 <= i < words.len() && 0 <= j < words.len() && i != j ==> (#[trigger] words[i]).key() != (
        #[trigger] words[j]).key())
    &&& (forall|i: int|
        0 <= i < words.len() ==> (#[trigger] words[i]).count as nat == count_key(
            logs,
            words[i].key(),
        ))
    &&& (forall|i: int| 0 <= i < logs.len() ==> has_word(words, log_word(#[trigger] logs[i])))
}

/// The storage operator's state: its own account identity and the four
/// persisted record families. The server process exclusively owns the rows;
/// clients only submit signed payloads for it to counter-sign and persist.
pub struct IpdisClientInner {
    /// The server's own account: the only guarantor this store accepts.
    pub server: AccountRef,
    /// Registration rows: one per accepted guarantee registration event.
    pub accounts_guarantees: Vec<AccountsGuarantee>,
    /// Content-addressed path records, in insertion order.
    pub dyn_paths: Vec<DynPathRow>,
    /// Materialized per-word occurrence counts.
    pub idf_words: Vec<IdfWordRow>,
    /// The append-only word-occurrence log, in insertion order.
    pub idf_logs: Vec<IdfLogRow>,
}

impl IpdisClientInner {
    /// Well-formedness: the aggregate table is consistent with the log.
    pub open spec fn wf(self) -> bool {
        idf_consistent(self.idf_words@, self.idf_logs@)
    }

    /// A fresh store for the operator `server`, with no records at all.
    pub fn new(server: AccountRef) -> (r: Self)
        ensures
            r.wf(),
            r.server == server,
            r.accounts_guarantees@.len() == 0,
            r.dyn_paths@.len() == 0,
            r.idf_words@.len() == 0,
            r.idf_logs@.len() == 0,
    {
        IpdisClientInner {
            server,
            accounts_guarantees: Vec::new(),
            dyn_paths: Vec::new(),
            idf_words: Vec::new(),
            idf_logs: Vec::new(),
        }
    }

    /// The server's own account, as the underlying identity layer reports it.
    pub fn account_me(&self) -> (r: AccountRef)
        ensures
            r == self.server,
    {
        self.server
    }
}

} // verus!
