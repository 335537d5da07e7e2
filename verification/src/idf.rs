//! The word/IDF engine: an append-only occurrence log plus a materialized
//! per-word count, updated together so the aggregate always equals the number
//! of log rows for its key. Each mutating operation is one logical
//! transaction: the caller holds exclusive (`&mut`) access for its whole
//! duration, so concurrent writers are serialized and no update is lost.

use vstd::prelude::*;

use crate::rows::IdfLogRow;
use crate::rows::IdfWordRow;
use crate::rows::count_key;
use crate::rows::idf_log_matches;
use crate::rows::idf_log_row_of;
use crate::rows::idf_record_of;
use crate::rows::lemma_count_key_le_len;
use crate::rows::lemma_count_key_pos;
use crate::rows::lemma_count_key_push;
use crate::rows::lemma_count_key_without_kind;
use crate::rows::lemma_logs_without_kind_props;
use crate::rows::lemma_logs_without_kind_push;
use crate::rows::lemma_words_without_kind_props;
use crate::rows::lemma_words_without_kind_push;
use crate::rows::lemma_words_without_kind_unique;
use crate::rows::log_word;
use crate::rows::logs_without_kind;
use crate::rows::words_without_kind;
use crate::store::IpdisClientInner;
use crate::store::has_word;
use crate::store::idf_consistent;
use crate::types::AccountRef;
use crate::types::ContentHash;
use crate::types::Error;
use crate::types::GetIdfWords;
use crate::types::GuaranteeSigned;
use crate::types::GuarantorSigned;
use crate::types::Identity;
use crate::types::Metadata;
use crate::types::Signature;
use crate::types::TextHash;
use crate::types::WordHash;
use crate::types::check_time_valid;
use crate::types::sign_as_guarantor;

verus! {

/// The double-signed envelopes of the log rows answering a
/// `(guarantee, guarantor, word)` query at time `now`, in insertion order.
pub open spec fn idf_log_records(
    logs: Seq<IdfLogRow>,
    guarantee: AccountRef,
    guarantor: AccountRef,
    word: WordHash,
    now: i64,
) -> Seq<GuarantorSigned<WordHash>>
    decreases logs.len(),
{
    if logs.len() == 0 {
        Seq::empty()
    } else if idf_log_matches(logs.last(), guarantee, guarantor, word, now) {
        idf_log_records(logs.drop_last(), guarantee, guarantor, word, now).push(
            idf_record_of(logs.last()),
        )
    } else {
        idf_log_records(logs.drop_last(), guarantee, guarantor, word, now)
    }
}

pub proof fn lemma_idf_log_records_push(
    logs: Seq<IdfLogRow>,
    x: IdfLogRow,
    guarantee: AccountRef,
    guarantor: AccountRef,
    word: WordHash,
    now: i64,
)
    ensures
        idf_log_records(logs.push(x), guarantee, guarantor, word, now) == (if idf_log_matches(
            x,
            guarantee,
            guarantor,
            word,
            now,
        ) {
            idf_log_records(logs, guarantee, guarantor, word, now).push(idf_record_of(x))
        } else {
            idf_log_records(logs, guarantee, guarantor, word, now)
        }),
{
    assert(logs.push(x).drop_last() =~= logs);
    assert(logs.push(x).last() == x);
}

/// A log in which no row answers the query yields no records.
pub proof fn lemma_idf_log_records_empty(
    logs: Seq<IdfLogRow>,
    guarantee: AccountRef,
    guarantor: AccountRef,
    word: WordHash,
    now: i64,
)
    requires
        forall|i: int|
            0 <= i < logs.len() ==> !idf_log_matches(#[trigger] logs[i], guarantee, guarantor, word, now),
    ensures
        idf_log_records(logs, guarantee, guarantor, word, now).len() == 0,
    decreases logs.len(),
{
    if logs.len() > 0 {
        assert(forall|i: int| 0 <= i < logs.len() - 1 ==> #[trigger] logs.drop_last()[i] == logs[i]);
        lemma_idf_log_records_empty(logs.drop_last(), guarantee, guarantor, word, now);
        assert(logs[logs.len() - 1] == logs.last());
    }
}

impl IpdisClientInner {
    /// Record one occurrence of a word: counter-sign the submission —
    /// stamping it with the fresh `nonce` and the current time `now` —
    /// append one log row, and, in the same logical transaction, bump the
    /// word's materialized count, or create it at one. Rejected iff the
    /// submission asserts another guarantor, in which case nothing changes.
    pub fn put_idf_log_unsafe(
        &mut self,
        word: &GuaranteeSigned<WordHash>,
        guarantor_signature: Signature,
        nonce: u128,
        now: i64,
    ) -> (r: Result<(), Error>)
        requires
            old(self).wf(),
        ensures
            final(self).wf(),
            r is Ok <==> word.data.guarantor == old(self).server,
            r is Ok ==> final(self).idf_logs@ == old(self).idf_logs@.push(
                idf_log_row_of(old(self).server, guarantor_signature, nonce, now, *word),
            ),
            r is Ok ==> forall|k: WordHash| #[trigger] count_key(final(self).idf_logs@, k)
                == count_key(old(self).idf_logs@, k) + (if k == word.data.data {
                    1nat
                } else {
                    0nat
                }),
            r is Err ==> *final(self) == *old(self) && r->Err_0 == Error::AuthorizationError,
            final(self).server == old(self).server,
            final(self).accounts_guarantees@ == old(self).accounts_guarantees@,
            final(self).dyn_paths@ == old(self).dyn_paths@,
    {
        let me = self.account_me();
        let signed = match sign_as_guarantor(me, guarantor_signature, nonce, now, *word) {
            Ok(s) => s,
            Err(e) => {
                return Err(e);
            },
        };
        let row = IdfLogRow {
            nonce: signed.data.data.nonce,
            guarantee: signed.data.guarantee.account,
            guarantor: signed.guarantor.account,
            guarantee_signature: signed.data.guarantee.signature,
            guarantor_signature: signed.guarantor.signature,
            created_date: signed.data.data.created_date,
            expiration_date: signed.data.data.expiration_date,
            kind: signed.data.data.data.kind,
            lang: signed.data.data.data.text.lang,
            word: signed.data.data.data.text.msg,
        };
        let key = WordHash { kind: row.kind, text: TextHash { lang: row.lang, msg: row.word } };
        self.idf_logs.push(row);
        let n_logs = self.idf_logs.len();
        proof {
            assert(key == log_word(row));
            assert forall|k: WordHash| #[trigger] count_key(self.idf_logs@, k) == count_key(
                old(self).idf_logs@,
                k,
            ) + (if k == key {
                1nat
            } else {
                0nat
            }) by {
                lemma_count_key_push(old(self).idf_logs@, row, k);
            }
        }
        let m = self.idf_words.len();
        let mut i: usize = 0;
        while i < m
            invariant
                self.server == old(self).server,
                self.accounts_guarantees@ == old(self).accounts_guarantees@,
                self.dyn_paths@ == old(self).dyn_paths@,
                self.idf_words@ == old(self).idf_words@,
                self.idf_logs@ == old(self).idf_logs@.push(row),
                idf_consistent(old(self).idf_words@, old(self).idf_logs@),
                row == idf_log_row_of(old(self).server, guarantor_signature, nonce, now, *word),
                word.data.guarantor == old(self).server,
                key == log_word(row),
                n_logs == self.idf_logs@.len(),
                forall|k: WordHash| #[trigger] count_key(self.idf_logs@, k) == count_key(
                    old(self).idf_logs@,
                    k,
                ) + (if k == key {
                    1nat
                } else {
                    0nat
                }),
                m == self.idf_words@.len(),
                i <= m,
                forall|j: int| 0 <= j < i ==> (#[trigger] self.idf_words@[j]).key() != key,
            decreases m - i,
        {
            let w = self.idf_words[i];
            let wkey = WordHash { kind: w.kind, text: TextHash { lang: w.lang, msg: w.word } };
            if wkey == key {
                proof {
                    assert(self.idf_words@[i as int].key() == key);
                    lemma_count_key_le_len(old(self).idf_logs@, key);
                }
                let updated = IdfWordRow { kind: w.kind, lang: w.lang, word: w.word, count: w.count + 1 };
                let ghost words0 = self.idf_words@;
                self.idf_words.set(i, updated);
                proof {
                    let words1 = self.idf_words@;
                    let logs1 = self.idf_logs@;
                    assert(words1 == words0.update(i as int, updated));
                    assert forall|j: int| 0 <= j < words1.len() implies (
                    #[trigger] words1[j]).key() == words0[j].key() by {}
                    assert forall|j: int| 0 <= j < words1.len() implies (
                    #[trigger] words1[j]).count as nat == count_key(logs1, words1[j].key()) by {
                        if j == i as int {
                            assert(words0[j].count as nat == count_key(old(self).idf_logs@, key));
                        } else {
                            assert(words0[j].key() != words0[i as int].key());
                        }
                    }
                    assert forall|j: int| 0 <= j < logs1.len() implies has_word(
                        words1,
                        log_word(#[trigger] logs1[j]),
                    ) by {
                        if j < old(self).idf_logs@.len() {
                            assert(logs1[j] == old(self).idf_logs@[j]);
                            assert(has_word(words0, log_word(old(self).idf_logs@[j])));
                            let t = choose|t: int|
                                0 <= t < words0.len() && (#[trigger] words0[t]).key() == log_word(
                                    old(self).idf_logs@[j],
                                );
                            assert(words1[t].key() == log_word(logs1[j]));
                        } else {
                            assert(logs1[j] == row);
                            assert(words1[i as int].key() == key);
                        }
                    }
                    assert(idf_consistent(words1, logs1));
                }
                return Ok(());
            }
            i += 1;
        }
        proof {
            if count_key(old(self).idf_logs@, key) > 0 {
                lemma_count_key_pos(old(self).idf_logs@, key);
                let t = choose|t: int|
                    0 <= t < old(self).idf_logs@.len() && log_word(
                        #[trigger] old(self).idf_logs@[t],
                    ) == key;
                assert(has_word(old(self).idf_words@, key));
                let u = choose|u: int|
                    0 <= u < old(self).idf_words@.len() && (
                    #[trigger] old(self).idf_words@[u]).key() == key;
                assert(false);
            }
        }
        let new_row = IdfWordRow { kind: row.kind, lang: row.lang, word: row.word, count: 1 };
        let ghost words0 = self.idf_words@;
        self.idf_words.push(new_row);
        proof {
            let words1 = self.idf_words@;
            let logs1 = self.idf_logs@;
            assert(words1 == words0.push(new_row));
            assert(new_row.key() == key);
            assert(forall|j: int| 0 <= j < words0.len() ==> #[trigger] words1[j] == words0[j]);
            assert forall|a: int, b: int|
                0 <= a < words1.len() && 0 <= b < words1.len() && a != b implies (
            #[trigger] words1[a]).key() != (#[trigger] words1[b]).key() by {
                if a < words0.len() && b < words0.len() {
                } else {
                    let c = if a < words0.len() {
                        a
                    } else {
                        b
                    };
                    assert(words1[c].key() != key);
                }
            }
            assert forall|j: int| 0 <= j < words1.len() implies (
            #[trigger] words1[j]).count as nat == count_key(logs1, words1[j].key()) by {
                if j < words0.len() {
                    assert(words0[j].key() != key);
                } else {
                    assert(words1[j] == new_row);
                    assert(count_key(old(self).idf_logs@, key) == 0);
                }
            }
            assert forall|j: int| 0 <= j < logs1.len() implies has_word(
                words1,
                log_word(#[trigger] logs1[j]),
            ) by {
                if j < old(self).idf_logs@.len() {
                    assert(logs1[j] == old(self).idf_logs@[j]);
                    assert(has_word(words0, log_word(old(self).idf_logs@[j])));
                    let t = choose|t: int|
                        0 <= t < words0.len() && (#[trigger] words0[t]).key() == log_word(
                            old(self).idf_logs@[j],
                        );
                    assert(words1[t].key() == log_word(logs1[j]));
                } else {
                    assert(logs1[j] == row);
                    assert(words1[words0.len() as int].key() == key);
                }
            }
            assert(idf_consistent(words1, logs1));
        }
        Ok(())
    }

    /// Fetch the materialized count for `word`: the number of log rows ever
    /// inserted for its key since the aggregate's creation, zero when no
    /// aggregate exists. A constant-time aggregate lookup, never a log scan.
    pub fn get_idf_count_unsafe(&self, word: &WordHash) -> (r: Result<usize, Error>)
        requires
            self.wf(),
        ensures
            r is Ok,
            r->Ok_0 as nat == count_key(self.idf_logs@, *word),
    {
        let m = self.idf_words.len();
        let mut i: usize = 0;
        while i < m
            invariant
                self.wf(),
                m == self.idf_words@.len(),
                i <= m,
                forall|j: int| 0 <= j < i ==> (#[trigger] self.idf_words@[j]).key() != *word,
            decreases m - i,
        {
            let w = self.idf_words[i];
            let wkey = WordHash { kind: w.kind, text: TextHash { lang: w.lang, msg: w.word } };
            if wkey == *word {
                proof {
                    assert(self.idf_words@[i as int].key() == *word);
                }
                return Ok(w.count);
            }
            i += 1;
        }
        proof {
            if count_key(self.idf_logs@, *word) > 0 {
                lemma_count_key_pos(self.idf_logs@, *word);
                let t = choose|t: int|
                    0 <= t < self.idf_logs@.len() && log_word(#[trigger] self.idf_logs@[t])
                        == *word;
                assert(has_word(self.idf_words@, *word));
                let u = choose|u: int|
                    0 <= u < self.idf_words@.len() && (#[trigger] self.idf_words@[u]).key()
                        == *word;
                assert(false);
            }
        }
        Ok(0)
    }

    /// Fetch every currently valid log row for the queried word, scoped to
    /// `(guarantee, guarantor = this server)`, each re-wrapped in its stored
    /// double signature; `guarantee` defaults to the server's own account.
    pub fn get_idf_logs_unsafe(
        &self,
        guarantee: Option<&AccountRef>,
        query: &GetIdfWords,
        now: i64,
    ) -> (r: Result<Vec<GuarantorSigned<WordHash>>, Error>)
        ensures
            r is Ok,
            r->Ok_0@ == idf_log_records(
                self.idf_logs@,
                self.resolved_guarantee(guarantee),
                self.server,
                query.word,
                now,
            ),
    {
        let guarantor = self.account_me();
        let g: AccountRef = match guarantee {
            Some(a) => *a,
            None => guarantor,
        };
        let n = self.idf_logs.len();
        let mut out: Vec<GuarantorSigned<WordHash>> = Vec::new();
        let mut i: usize = 0;
        while i < n
            invariant
                n == self.idf_logs@.len(),
                i <= n,
                guarantor == self.server,
                g == self.resolved_guarantee(guarantee),
                out@ == idf_log_records(
                    self.idf_logs@.subrange(0, i as int),
                    g,
                    self.server,
                    query.word,
                    now,
                ),
            decreases n - i,
        {
            proof {
                assert(self.idf_logs@.subrange(0, i + 1) =~= self.idf_logs@.subrange(
                    0,
                    i as int,
                ).push(self.idf_logs@[i as int]));
                lemma_idf_log_records_push(
                    self.idf_logs@.subrange(0, i as int),
                    self.idf_logs@[i as int],
                    g,
                    self.server,
                    query.word,
                    now,
                );
            }
            let l = self.idf_logs[i];
            let lw = WordHash { kind: l.kind, text: TextHash { lang: l.lang, msg: l.word } };
            if l.guarantee == g && l.guarantor == guarantor && lw == query.word && check_time_valid(
                l.created_date,
                l.expiration_date,
                now,
            ) {
                let rec = GuarantorSigned {
                    guarantor: Identity { account: l.guarantor, signature: l.guarantor_signature },
                    data: GuaranteeSigned {
                        guarantee: Identity {
                            account: l.guarantee,
                            signature: l.guarantee_signature,
                        },
                        data: Metadata {
                            nonce: l.nonce,
                            created_date: l.created_date,
                            expiration_date: l.expiration_date,
                            guarantor: l.guarantor,
                            data: WordHash {
                                kind: l.kind,
                                text: TextHash { lang: l.lang, msg: l.word },
                            },
                        },
                    },
                };
                proof {
                    assert(rec == idf_record_of(self.idf_logs@[i as int]));
                }
                out.push(rec);
            }
            i += 1;
        }
        proof {
            assert(self.idf_logs@.subrange(0, n as int) =~= self.idf_logs@);
        }
        Ok(out)
    }

    /// Bulk-remove, as one logical transaction, both the aggregate rows and
    /// the log rows of one `kind`: a reader never observes logs without
    /// their aggregate or the reverse.
    pub fn delete_idf_all_unsafe(&mut self, kind: &ContentHash) -> (r: Result<(), Error>)
        requires
            old(self).wf(),
        ensures
            r is Ok,
            final(self).wf(),
            final(self).idf_words@ == words_without_kind(old(self).idf_words@, *kind),
            final(self).idf_logs@ == logs_without_kind(old(self).idf_logs@, *kind),
            final(self).server == old(self).server,
            final(self).accounts_guarantees@ == old(self).accounts_guarantees@,
            final(self).dyn_paths@ == old(self).dyn_paths@,
    {
        let m = self.idf_words.len();
        let mut kept_words: Vec<IdfWordRow> = Vec::new();
        let mut i: usize = 0;
        while i < m
            invariant
                *self == *old(self),
                m == self.idf_words@.len(),
                i <= m,
                kept_words@ == words_without_kind(self.idf_words@.subrange(0, i as int), *kind),
            decreases m - i,
        {
            proof {
                assert(self.idf_words@.subrange(0, i + 1) =~= self.idf_words@.subrange(
                    0,
                    i as int,
                ).push(self.idf_words@[i as int]));
                lemma_words_without_kind_push(
                    self.idf_words@.subrange(0, i as int),
                    self.idf_words@[i as int],
                    *kind,
                );
            }
            let w = self.idf_words[i];
            if w.kind != *kind {
                kept_words.push(w);
            }
            i += 1;
        }
        let n = self.idf_logs.len();
        let mut kept_logs: Vec<IdfLogRow> = Vec::new();
        let mut j: usize = 0;
        while j < n
            invariant
                *self == *old(self),
                n == self.idf_logs@.len(),
                j <= n,
                kept_logs@ == logs_without_kind(self.idf_logs@.subrange(0, j as int), *kind),
            decreases n - j,
        {
            proof {
                assert(self.idf_logs@.subrange(0, j + 1) =~= self.idf_logs@.subrange(
                    0,
                    j as int,
                ).push(self.idf_logs@[j as int]));
                lemma_logs_without_kind_push(
                    self.idf_logs@.subrange(0, j as int),
                    self.idf_logs@[j as int],
                    *kind,
                );
            }
            let l = self.idf_logs[j];
            if l.kind != *kind {
                kept_logs.push(l);
            }
            j += 1;
        }
        proof {
            assert(self.idf_words@.subrange(0, m as int) =~= self.idf_words@);
            assert(self.idf_logs@.subrange(0, n as int) =~= self.idf_logs@);
        }
        self.idf_words = kept_words;
        self.idf_logs = kept_logs;
        proof {
            let words0 = old(self).idf_words@;
            let logs0 = old(self).idf_logs@;
            let words1 = words_without_kind(words0, *kind);
            let logs1 = logs_without_kind(logs0, *kind);
            lemma_words_without_kind_props(words0, *kind);
            lemma_words_without_kind_unique(words0, *kind);
            lemma_logs_without_kind_props(logs0, *kind);
            assert forall|a: int| 0 <= a < words1.len() implies (
            #[trigger] words1[a]).count as nat == count_key(logs1, words1[a].key()) by {
                assert(words0.contains(words1[a]));
                let t = choose|t: int| 0 <= t < words0.len() && #[trigger] words0[t] == words1[a];
                lemma_count_key_without_kind(logs0, *kind, words1[a].key());
            }
            assert forall|a: int| 0 <= a < logs1.len() implies has_word(
                words1,
                log_word(#[trigger] logs1[a]),
            ) by {
                assert(logs0.contains(logs1[a]));
                let t = choose|t: int| 0 <= t < logs0.len() && #[trigger] logs0[t] == logs1[a];
                assert(has_word(words0, log_word(logs0[t])));
                let u = choose|u: int|
                    0 <= u < words0.len() && (#[trigger] words0[u]).key() == log_word(logs0[t]);
                assert(words0[u].kind == log_word(logs0[t]).kind);
                assert(words0[u].kind != *kind);
                assert(words1.contains(words0[u]));
                let v = choose|v: int| 0 <= v < words1.len() && #[trigger] words1[v] == words0[u];
                assert(words1[v].key() == log_word(logs1[a]));
            }
            assert(idf_consistent(words1, logs1));
        }
        Ok(())
    }
}

} // verus!
