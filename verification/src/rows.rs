//! Persisted row shapes for the four record families, the predicates that
//! queries filter them with, and the sequence-level spec functions (counting
//! by key, bulk removal) that the store's contracts are stated over.

use vstd::prelude::*;

use crate::types::AccountRef;
use crate::types::ContentHash;
use crate::types::DynPath;
use crate::types::GuaranteeSigned;
use crate::types::GuarantorSigned;
use crate::types::Identity;
use crate::types::Metadata;
use crate::types::PathData;
use crate::types::Signature;
use crate::types::TextHash;
use crate::types::WordHash;
use crate::types::time_valid;

verus! {

/// One registration of a guarantee under a guarantor, double-signed.
#[derive(Clone, Copy, PartialEq, Eq, Debug)]
pub struct AccountsGuarantee {
    pub guarantee: AccountRef,
    pub guarantor: AccountRef,
    pub guarantee_signature: Signature,
    pub guarantor_signature: Signature,
    pub nonce: u128,
    pub created_date: i64,
    pub expiration_date: Option<i64>,
}

/// One content-addressed path record, double-signed and scoped to its
/// guarantee/guarantor pair.
#[derive(Clone, Copy, PartialEq, Eq, Debug)]
pub struct DynPathRow {
    pub nonce: u128,
    pub guarantee: AccountRef,
    pub guarantor: AccountRef,
    pub guarantee_signature: Signature,
    pub guarantor_signature: Signature,
    pub created_date: i64,
    pub expiration_date: Option<i64>,
    pub kind: ContentHash,
    pub word: ContentHash,
    pub path: ContentHash,
    pub len: u64,
}

/// One append-only word-occurrence record; never updated after insertion.
#[derive(Clone, Copy, PartialEq, Eq, Debug)]
pub struct IdfLogRow {
    pub nonce: u128,
    pub guarantee: AccountRef,
    pub guarantor: AccountRef,
    pub guarantee_signature: Signature,
    pub guarantor_signature: Signature,
    pub created_date: i64,
    pub expiration_date: Option<i64>,
    pub kind: ContentHash,
    pub lang: u64,
    pub word: ContentHash,
}

/// The materialized aggregate: one row per distinct `(kind, lang, word)`.
#[derive(Clone, Copy, PartialEq, Eq, Debug)]
pub struct IdfWordRow {
    pub kind: ContentHash,
    pub lang: u64,
    pub word: ContentHash,
    pub count: usize,
}

impl IdfWordRow {
    /// The word this aggregate row counts.
    pub open spec fn key(self) -> WordHash {
        WordHash { kind: self.kind, text: TextHash { lang: self.lang, msg: self.word } }
    }
}

/// The word a log row records an occurrence of.
pub open spec fn log_word(l: IdfLogRow) -> WordHash {
    WordHash { kind: l.kind, text: TextHash { lang: l.lang, msg: l.word } }
}

/// Whether a registration row authorizes `guarantee` under `guarantor` at
/// time `now`.
pub open spec fn reg_matches(
    r: AccountsGuarantee,
    guarantee: AccountRef,
    guarantor: AccountRef,
    now: i64,
) -> bool {
    &&& r.guarantee == guarantee
    &&& r.guarantor == guarantor
    &&& time_valid(r.created_date, r.expiration_date, now)
}

/// Whether a path row answers a `(guarantee, guarantor, kind, word)` lookup
/// at time `now`.
pub open spec fn path_row_matches(
    r: DynPathRow,
    guarantee: AccountRef,
    guarantor: AccountRef,
    kind: ContentHash,
    word: ContentHash,
    now: i64,
) -> bool {
    &&& r.guarantee == guarantee
    &&& r.guarantor == guarantor
    &&& r.kind == kind
    &&& r.word == word
    &&& time_valid(r.created_date, r.expiration_date, now)
}

/// Whether a log row answers a `(guarantee, guarantor, word)` lookup at time
/// `now`.
pub open spec fn idf_log_matches(
    l: IdfLogRow,
    guarantee: AccountRef,
    guarantor: AccountRef,
    word: WordHash,
    now: i64,
) -> bool {
    &&& l.guarantee == guarantee
    &&& l.guarantor == guarantor
    &&& log_word(l) == word
    &&& time_valid(l.created_date, l.expiration_date, now)
}

/// The registration row that persisting a counter-signed submission creates:
/// the server's stamps (`nonce`, `now`) name the registration event, while
/// identity, signatures and the requested expiration come from the
/// submission.
pub open spec fn guarantee_row_of(
    server: AccountRef,
    signature: Signature,
    nonce: u128,
    now: i64,
    g: GuaranteeSigned<AccountRef>,
) -> AccountsGuarantee {
    AccountsGuarantee {
        guarantee: g.guarantee.account,
        guarantor: server,
        guarantee_signature: g.guarantee.signature,
        guarantor_signature: signature,
        nonce,
        created_date: now,
        expiration_date: g.data.expiration_date,
    }
}

/// The path row that persisting a counter-signed submission creates, with
/// the server's fresh stamps (`nonce`, `now`).
pub open spec fn path_row_of(
    server: AccountRef,
    signature: Signature,
    nonce: u128,
    now: i64,
    p: GuaranteeSigned<DynPath>,
) -> DynPathRow {
    DynPathRow {
        nonce,
        guarantee: p.guarantee.account,
        guarantor: server,
        guarantee_signature: p.guarantee.signature,
        guarantor_signature: signature,
        created_date: now,
        expiration_date: p.data.expiration_date,
        kind: p.data.data.kind,
        word: p.data.data.word,
        path: p.data.data.path.value,
        len: p.data.data.path.len,
    }
}

/// The log row that persisting a counter-signed word submission creates,
/// with the server's fresh stamps (`nonce`, `now`).
pub open spec fn idf_log_row_of(
    server: AccountRef,
    signature: Signature,
    nonce: u128,
    now: i64,
    w: GuaranteeSigned<WordHash>,
) -> IdfLogRow {
    IdfLogRow {
        nonce,
        guarantee: w.guarantee.account,
        guarantor: server,
        guarantee_signature: w.guarantee.signature,
        guarantor_signature: signature,
        created_date: now,
        expiration_date: w.data.expiration_date,
        kind: w.data.data.kind,
        lang: w.data.data.text.lang,
        word: w.data.data.text.msg,
    }
}

/// The double-signed envelope a stored path row is handed back as.
pub open spec fn path_record_of(r: DynPathRow) -> GuarantorSigned<DynPath> {
    GuarantorSigned {
        guarantor: Identity { account: r.guarantor, signature: r.guarantor_signature },
        data: GuaranteeSigned {
            guarantee: Identity { account: r.guarantee, signature: r.guarantee_signature },
            data: Metadata {
                nonce: r.nonce,
                created_date: r.created_date,
                expiration_date: r.expiration_date,
                guarantor: r.guarantor,
                data: DynPath {
                    kind: r.kind,
                    word: r.word,
                    path: PathData { value: r.path, len: r.len },
                },
            },
        },
    }
}

/// The double-signed envelope a stored log row is handed back as.
pub open spec fn idf_record_of(l: IdfLogRow) -> GuarantorSigned<WordHash> {
    GuarantorSigned {
        guarantor: Identity { account: l.guarantor, signature: l.guarantor_signature },
        data: GuaranteeSigned {
            guarantee: Identity { account: l.guarantee, signature: l.guarantee_signature },
            data: Metadata {
                nonce: l.nonce,
                created_date: l.created_date,
                expiration_date: l.expiration_date,
                guarantor: l.guarantor,
                data: WordHash { kind: l.kind, text: TextHash { lang: l.lang, msg: l.word } },
            },
        },
    }
}

/// How many log rows record an occurrence of `w`.
pub open spec fn count_key(s: Seq<IdfLogRow>, w: WordHash) -> nat
    decreases s.len(),
{
    if s.len() == 0 {
        0
    } else {
        count_key(s.drop_last(), w) + (if log_word(s.last()) == w {
            1nat
        } else {
            0nat
        })
    }
}

/// Appending one log row raises the count of exactly its own word by one.
pub proof fn lemma_count_key_push(s: Seq<IdfLogRow>, l: IdfLogRow, w: WordHash)
    ensures
        count_key(s.push(l), w) == count_key(s, w) + (if log_word(l) == w {
            1nat
        } else {
            0nat
        }),
{
    assert(s.push(l).drop_last() =~= s);
    assert(s.push(l).last() == l);
}

/// A word occurs at most once per log row.
pub proof fn lemma_count_key_le_len(s: Seq<IdfLogRow>, w: WordHash)
    ensures
        count_key(s, w) <= s.len(),
    decreases s.len(),
{
    if s.len() > 0 {
        lemma_count_key_le_len(s.drop_last(), w);
    }
}

/// A positive count names a concrete log row for that word.
pub proof fn lemma_count_key_pos(s: Seq<IdfLogRow>, w: WordHash)
    requires
        count_key(s, w) > 0,
    ensures
        exists|i: int| 0 <= i < s.len() && log_word(#[trigger] s[i]) == w,
    decreases s.len(),
{
    if s.len() > 0 {
        if log_word(s.last()) == w {
            assert(log_word(s[s.len() - 1]) == w);
        } else {
            lemma_count_key_pos(s.drop_last(), w);
            let i = choose|i: int| 0 <= i < s.drop_last().len() && log_word(
                #[trigger] s.drop_last()[i],
            ) == w;
            assert(s.drop_last()[i] == s[i]);
        }
    }
}

/// The registration rows left after revoking every registration of `g`.
pub open spec fn regs_without(s: Seq<AccountsGuarantee>, g: AccountRef) -> Seq<AccountsGuarantee>
    decreases s.len(),
{
    if s.len() == 0 {
        Seq::empty()
    } else if s.last().guarantee == g {
        regs_without(s.drop_last(), g)
    } else {
        regs_without(s.drop_last(), g).push(s.last())
    }
}

pub proof fn lemma_regs_without_push(s: Seq<AccountsGuarantee>, x: AccountsGuarantee, g: AccountRef)
    ensures
        regs_without(s.push(x), g) == (if x.guarantee == g {
            regs_without(s, g)
        } else {
            regs_without(s, g).push(x)
        }),
{
    assert(s.push(x).drop_last() =~= s);
    assert(s.push(x).last() == x);
}

/// After revocation no row for `g` remains, and every row for any other
/// guarantee is kept.
pub proof fn lemma_regs_without_props(s: Seq<AccountsGuarantee>, g: AccountRef)
    ensures
        forall|i: int|
            0 <= i < regs_without(s, g).len() ==> (#[trigger] regs_without(s, g)[i]).guarantee
                != g,
        forall|j: int|
            0 <= j < s.len() && (#[trigger] s[j]).guarantee != g ==> regs_without(s, g).contains(
                s[j],
            ),
    decreases s.len(),
{
    if s.len() > 0 {
        lemma_regs_without_props(s.drop_last(), g);
        assert(forall|j: int|
            0 <= j < s.len() - 1 ==> #[trigger] s[j] == s.drop_last()[j]);
        if s.last().guarantee != g {
            let out = regs_without(s.drop_last(), g).push(s.last());
            assert(out.last() == s.last());
            assert(forall|j: int|
                0 <= j < s.len() && s[j].guarantee != g ==> regs_without(s, g).contains(s[j]))
                by {
                assert forall|j: int|
                    0 <= j < s.len() && s[j].guarantee != g implies regs_without(s, g).contains(
                    s[j],
                ) by {
                    if j == s.len() - 1 {
                        assert(out[out.len() - 1] == s[j]);
                    } else {
                        assert(regs_without(s.drop_last(), g).contains(s.drop_last()[j]));
                        let k = choose|k: int|
                            0 <= k < regs_without(s.drop_last(), g).len() && regs_without(
                                s.drop_last(),
                                g,
                            )[k] == s.drop_last()[j];
                        assert(out[k] == s[j]);
                    }
                }
            }
        } else {
            assert forall|j: int|
                0 <= j < s.len() && s[j].guarantee != g implies regs_without(s, g).contains(
                s[j],
            ) by {
                assert(regs_without(s.drop_last(), g).contains(s.drop_last()[j]));
            }
        }
    }
}

/// The path rows left after a bulk delete of one `kind`.
pub open spec fn paths_without_kind(s: Seq<DynPathRow>, kind: ContentHash) -> Seq<DynPathRow>
    decreases s.len(),
{
    if s.len() == 0 {
        Seq::empty()
    } else if s.last().kind == kind {
        paths_without_kind(s.drop_last(), kind)
    } else {
        paths_without_kind(s.drop_last(), kind).push(s.last())
    }
}

pub proof fn lemma_paths_without_kind_push(s: Seq<DynPathRow>, x: DynPathRow, kind: ContentHash)
    ensures
        paths_without_kind(s.push(x), kind) == (if x.kind == kind {
            paths_without_kind(s, kind)
        } else {
            paths_without_kind(s, kind).push(x)
        }),
{
    assert(s.push(x).drop_last() =~= s);
    assert(s.push(x).last() == x);
}

/// No path row of the deleted kind survives the bulk delete.
pub proof fn lemma_paths_without_kind_props(s: Seq<DynPathRow>, kind: ContentHash)
    ensures
        forall|i: int|
            0 <= i < paths_without_kind(s, kind).len() ==> (#[trigger] paths_without_kind(
                s,
                kind,
            )[i]).kind != kind,
    decreases s.len(),
{
    if s.len() > 0 {
        lemma_paths_without_kind_props(s.drop_last(), kind);
    }
}

/// The log rows left after a bulk delete of one `kind`.
pub open spec fn logs_without_kind(s: Seq<IdfLogRow>, kind: ContentHash) -> Seq<IdfLogRow>
    decreases s.len(),
{
    if s.len() == 0 {
        Seq::empty()
    } else if s.last().kind == kind {
        logs_without_kind(s.drop_last(), kind)
    } else {
        logs_without_kind(s.drop_last(), kind).push(s.last())
    }
}

pub proof fn lemma_logs_without_kind_push(s: Seq<IdfLogRow>, x: IdfLogRow, kind: ContentHash)
    ensures
        logs_without_kind(s.push(x), kind) == (if x.kind == kind {
            logs_without_kind(s, kind)
        } else {
            logs_without_kind(s, kind).push(x)
        }),
{
    assert(s.push(x).drop_last() =~= s);
    assert(s.push(x).last() == x);
}

/// Every surviving log row kept its kind and comes from the original log.
pub proof fn lemma_logs_without_kind_props(s: Seq<IdfLogRow>, kind: ContentHash)
    ensures
        forall|i: int|
            0 <= i < logs_without_kind(s, kind).len() ==> (#[trigger] logs_without_kind(
                s,
                kind,
            )[i]).kind != kind && s.contains(logs_without_kind(s, kind)[i]),
    decreases s.len(),
{
    if s.len() > 0 {
        lemma_logs_without_kind_props(s.drop_last(), kind);
        assert forall|i: int| 0 <= i < logs_without_kind(s, kind).len() implies (
        #[trigger] logs_without_kind(s, kind)[i]).kind != kind && s.contains(
            logs_without_kind(s, kind)[i],
        ) by {
            let out = logs_without_kind(s, kind);
            let prev = logs_without_kind(s.drop_last(), kind);
            if s.last().kind == kind {
                assert(s.drop_last().contains(prev[i]));
                let k = choose|k: int| 0 <= k < s.drop_last().len() && s.drop_last()[k] == prev[i];
                assert(s[k] == out[i]);
            } else {
                if i < prev.len() {
                    assert(out[i] == prev[i]);
                    assert(s.drop_last().contains(prev[i]));
                    let k = choose|k: int|
                        0 <= k < s.drop_last().len() && s.drop_last()[k] == prev[i];
                    assert(s[k] == out[i]);
                } else {
                    assert(out[i] == s.last());
                    assert(s[s.len() - 1] == out[i]);
                }
            }
        }
    }
}

/// Deleting one kind zeroes the counts of exactly that kind's words.
pub proof fn lemma_count_key_without_kind(s: Seq<IdfLogRow>, kind: ContentHash, w: WordHash)
    ensures
        count_key(logs_without_kind(s, kind), w) == (if w.kind == kind {
            0nat
        } else {
            count_key(s, w)
        }),
    decreases s.len(),
{
    if s.len() > 0 {
        lemma_count_key_without_kind(s.drop_last(), kind, w);
        if s.last().kind != kind {
            lemma_count_key_push(logs_without_kind(s.drop_last(), kind), s.last(), w);
        }
    }
}

/// The aggregate rows left after a bulk delete of one `kind`.
pub open spec fn words_without_kind(s: Seq<IdfWordRow>, kind: ContentHash) -> Seq<IdfWordRow>
    decreases s.len(),
{
    if s.len() == 0 {
        Seq::empty()
    } else if s.last().kind == kind {
        words_without_kind(s.drop_last(), kind)
    } else {
        words_without_kind(s.drop_last(), kind).push(s.last())
    }
}

pub proof fn lemma_words_without_kind_push(s: Seq<IdfWordRow>, x: IdfWordRow, kind: ContentHash)
    ensures
        words_without_kind(s.push(x), kind) == (if x.kind == kind {
            words_without_kind(s, kind)
        } else {
            words_without_kind(s, kind).push(x)
        }),
{
    assert(s.push(x).drop_last() =~= s);
    assert(s.push(x).last() == x);
}

/// Every surviving aggregate row kept its kind and comes from the original
/// table, and every row of another kind survives.
pub proof fn lemma_words_without_kind_props(s: Seq<IdfWordRow>, kind: ContentHash)
    ensures
        forall|i: int|
            0 <= i < words_without_kind(s, kind).len() ==> (#[trigger] words_without_kind(
                s,
                kind,
            )[i]).kind != kind && s.contains(words_without_kind(s, kind)[i]),
        forall|j: int|
            0 <= j < s.len() && (#[trigger] s[j]).kind != kind ==> words_without_kind(
                s,
                kind,
            ).contains(s[j]),
    decreases s.len(),
{
    if s.len() > 0 {
        lemma_words_without_kind_props(s.drop_last(), kind);
        let out = words_without_kind(s, kind);
        let prev = words_without_kind(s.drop_last(), kind);
        assert forall|i: int| 0 <= i < out.len() implies (#[trigger] out[i]).kind != kind
            && s.contains(out[i]) by {
            if s.last().kind == kind || i < prev.len() {
                assert(s.drop_last().contains(prev[i]));
                let k = choose|k: int| 0 <= k < s.drop_last().len() && s.drop_last()[k] == prev[i];
                assert(s[k] == out[i]);
            } else {
                assert(out[i] == s.last());
                assert(s[s.len() - 1] == out[i]);
            }
        }
        assert forall|j: int| 0 <= j < s.len() && (#[trigger] s[j]).kind != kind implies out.contains(
            s[j],
        ) by {
            if j == s.len() - 1 {
                assert(out[out.len() - 1] == s[j]);
            } else {
                assert(s.drop_last()[j] == s[j]);
                assert(prev.contains(s.drop_last()[j]));
                let k = choose|k: int| 0 <= k < prev.len() && prev[k] == s.drop_last()[j];
                assert(out[k] == s[j]);
            }
        }
    }
}

/// Bulk delete preserves pairwise distinctness of the aggregate keys.
pub proof fn lemma_words_without_kind_unique(s: Seq<IdfWordRow>, kind: ContentHash)
    requires
        forall|i: int, j: int|
            0 <= i < s.len() && 0 <= j < s.len() && i != j ==> (#[trigger] s[i]).key() != (
            #[trigger] s[j]).key(),
    ensures
        forall|i: int, j: int|
            0 <= i < words_without_kind(s, kind).len() && 0 <= j < words_without_kind(
                s,
                kind,
            ).len() && i != j ==> (#[trigger] words_without_kind(s, kind)[i]).key() != (
            #[trigger] words_without_kind(s, kind)[j]).key(),
    decreases s.len(),
{
    if s.len() > 0 {
        assert(forall|i: int| 0 <= i < s.len() - 1 ==> #[trigger] s.drop_last()[i] == s[i]);
        lemma_words_without_kind_unique(s.drop_last(), kind);
        lemma_words_without_kind_props(s.drop_last(), kind);
        let out = words_without_kind(s, kind);
        let prev = words_without_kind(s.drop_last(), kind);
        if s.last().kind != kind {
            assert forall|i: int, j: int|
                0 <= i < out.len() && 0 <= j < out.len() && i != j implies (
            #[trigger] out[i]).key() != (#[trigger] out[j]).key() by {
                if i < prev.len() && j < prev.len() {
                    assert(out[i] == prev[i] && out[j] == prev[j]);
                } else {
                    let a = if i < prev.len() {
                        i
                    } else {
                        j
                    };
                    assert(out[a] == prev[a]);
                    assert(s.drop_last().contains(prev[a]));
                    let k = choose|k: int|
                        0 <= k < s.drop_last().len() && s.drop_last()[k] == prev[a];
                    assert(s[k] == prev[a]);
                    assert(s[s.len() - 1] == s.last());
                }
            }
        }
    }
}

} // verus!
