//! Global laws of the store, each proved from the same spec functions the
//! operations' contracts are stated over.

use vstd::prelude::*;

use crate::idf::idf_log_records;
use crate::idf::lemma_idf_log_records_empty;
use crate::paths::is_latest_path_match;
use crate::registry::registered_in;
use crate::rows::AccountsGuarantee;
use crate::rows::DynPathRow;
use crate::rows::IdfLogRow;
use crate::rows::count_key;
use crate::rows::guarantee_row_of;
use crate::rows::idf_log_matches;
use crate::rows::lemma_count_key_push;
use crate::rows::lemma_count_key_without_kind;
use crate::rows::lemma_logs_without_kind_props;
use crate::rows::lemma_paths_without_kind_props;
use crate::rows::paths_without_kind;
use crate::rows::lemma_regs_without_props;
use crate::rows::log_word;
use crate::rows::logs_without_kind;
use crate::rows::path_record_of;
use crate::rows::path_row_matches;
use crate::rows::path_row_of;
use crate::rows::reg_matches;
use crate::rows::regs_without;
use crate::store::IpdisClientInner;
use crate::types::AccountRef;
use crate::types::ContentHash;
use crate::types::DynPath;
use crate::types::counter_signed;
use crate::types::GuaranteeSigned;
use crate::types::GuarantorSigned;
use crate::types::Identity;
use crate::types::Signature;
use crate::types::WordHash;
use crate::types::time_valid;

verus! {

/// Sequential occurrence writes accumulate: appending log rows that all
/// record the word `w` raises `w`'s count by exactly their number. Together
/// with `put_idf_log`'s contract (each accepted call appends exactly one log
/// row for the submitted word) and `get_idf_count`'s (the returned count is
/// the number of log rows for the word), n accepted submissions of `w` read
/// back as exactly n.
pub proof fn lemma_sequential_puts_count(logs: Seq<IdfLogRow>, added: Seq<IdfLogRow>, w: WordHash)
    requires
        forall|i: int| 0 <= i < added.len() ==> log_word(#[trigger] added[i]) == w,
    ensures
        count_key(logs + added, w) == count_key(logs, w) + added.len(),
    decreases added.len(),
{
    if added.len() == 0 {
        assert(logs + added =~= logs);
    } else {
        assert(forall|i: int|
            0 <= i < added.len() - 1 ==> #[trigger] added.drop_last()[i] == added[i]);
        lemma_sequential_puts_count(logs, added.drop_last(), w);
        assert(logs + added =~= (logs + added.drop_last()).push(added.last()));
        lemma_count_key_push(logs + added.drop_last(), added.last(), w);
        assert(log_word(added[added.len() - 1]) == w);
    }
}

/// Overlapping writers serialize without losing an update: the store is used
/// through exclusive access for the whole of each operation, so two
/// concurrent occurrence writes for the same word land as two appended log
/// rows, and the word's count rises by exactly two — never one.
pub proof fn lemma_concurrent_puts_count(
    logs: Seq<IdfLogRow>,
    first: IdfLogRow,
    second: IdfLogRow,
    w: WordHash,
)
    requires
        log_word(first) == w,
        log_word(second) == w,
    ensures
        count_key(logs.push(first).push(second), w) == count_key(logs, w) + 2,
{
    lemma_count_key_push(logs, first, w);
    lemma_count_key_push(logs.push(first), second, w);
}

/// Bulk deletion of a kind clears that kind completely: afterwards every
/// word of the kind counts zero, and its occurrence-log query yields no
/// records for any scope and any time.
pub proof fn lemma_delete_idf_clears(
    logs: Seq<IdfLogRow>,
    kind: ContentHash,
    w: WordHash,
    guarantee: AccountRef,
    guarantor: AccountRef,
    now: i64,
)
    requires
        w.kind == kind,
    ensures
        count_key(logs_without_kind(logs, kind), w) == 0,
        idf_log_records(logs_without_kind(logs, kind), guarantee, guarantor, w, now).len() == 0,
{
    lemma_count_key_without_kind(logs, kind, w);
    lemma_logs_without_kind_props(logs, kind);
    let remaining = logs_without_kind(logs, kind);
    assert forall|i: int| 0 <= i < remaining.len() implies !idf_log_matches(
        #[trigger] remaining[i],
        guarantee,
        guarantor,
        w,
        now,
    ) by {
        assert(remaining[i].kind != kind);
    }
    lemma_idf_log_records_empty(remaining, guarantee, guarantor, w, now);
}

/// Bulk deletion of a path kind is complete: afterwards no row of that kind
/// answers any query, in any scope and at any time.
pub proof fn lemma_delete_paths_clears(
    paths: Seq<DynPathRow>,
    kind: ContentHash,
    guarantee: AccountRef,
    guarantor: AccountRef,
    word: ContentHash,
    now: i64,
)
    ensures
        forall|i: int|
            0 <= i < paths_without_kind(paths, kind).len() ==> !path_row_matches(
                #[trigger] paths_without_kind(paths, kind)[i],
                guarantee,
                guarantor,
                kind,
                word,
                now,
            ),
{
    lemma_paths_without_kind_props(paths, kind);
}

/// Self-authentication needs no prior registration: asking this server about
/// itself always passes, and a self-check passes for nobody else's server
/// identity.
pub proof fn lemma_self_registration(s: IpdisClientInner, g: AccountRef, now: i64)
    ensures
        s.registration_ok(g, g, now) <==> g == s.server,
{
}

/// A freshly added registration authorizes its guarantee under this server
/// for as long as its validity window holds: from its server-stamped
/// creation time `stamped_at` until the submission's requested expiration.
pub proof fn lemma_add_guarantee_registers(
    regs: Seq<AccountsGuarantee>,
    server: AccountRef,
    signature: Signature,
    nonce: u128,
    stamped_at: i64,
    g: GuaranteeSigned<AccountRef>,
    now: i64,
)
    requires
        time_valid(stamped_at, g.data.expiration_date, now),
    ensures
        registered_in(
            regs.push(guarantee_row_of(server, signature, nonce, stamped_at, g)),
            g.guarantee.account,
            server,
            now,
        ),
{
    let appended = regs.push(guarantee_row_of(server, signature, nonce, stamped_at, g));
    assert(reg_matches(appended[appended.len() - 1], g.guarantee.account, server, now));
}

/// Each accepted registration is its own event: counter-signings with
/// distinct fresh nonces append distinct rows — a replayed submission does
/// not collapse into the first — and the earlier row stays in place.
pub proof fn lemma_registration_events_distinct(
    regs: Seq<AccountsGuarantee>,
    server: AccountRef,
    first_signature: Signature,
    second_signature: Signature,
    first_nonce: u128,
    second_nonce: u128,
    first_stamp: i64,
    second_stamp: i64,
    first: GuaranteeSigned<AccountRef>,
    second: GuaranteeSigned<AccountRef>,
)
    requires
        first_nonce != second_nonce,
    ensures
        guarantee_row_of(server, first_signature, first_nonce, first_stamp, first)
            != guarantee_row_of(server, second_signature, second_nonce, second_stamp, second),
        regs.push(guarantee_row_of(server, first_signature, first_nonce, first_stamp, first)).push(
            guarantee_row_of(server, second_signature, second_nonce, second_stamp, second),
        )[regs.len() as int] == guarantee_row_of(
            server,
            first_signature,
            first_nonce,
            first_stamp,
            first,
        ),
        regs.push(guarantee_row_of(server, first_signature, first_nonce, first_stamp, first)).push(
            guarantee_row_of(server, second_signature, second_nonce, second_stamp, second),
        )[regs.len() as int + 1] == guarantee_row_of(
            server,
            second_signature,
            second_nonce,
            second_stamp,
            second,
        ),
{
    assert(guarantee_row_of(server, first_signature, first_nonce, first_stamp, first).nonce
        != guarantee_row_of(server, second_signature, second_nonce, second_stamp, second).nonce);
}

/// Revocation is complete: after deleting a guarantee's registrations, no
/// registration row authorizes it under any guarantor, at any time.
pub proof fn lemma_delete_guarantee_unregisters(
    regs: Seq<AccountsGuarantee>,
    g: AccountRef,
    guarantor: AccountRef,
    now: i64,
)
    ensures
        !registered_in(regs_without(regs, g), g, guarantor, now),
{
    lemma_regs_without_props(regs, g);
    if registered_in(regs_without(regs, g), g, guarantor, now) {
        let i = choose|i: int|
            0 <= i < regs_without(regs, g).len() && reg_matches(
                #[trigger] regs_without(regs, g)[i],
                g,
                guarantor,
                now,
            );
        assert(regs_without(regs, g)[i].guarantee != g);
        assert(false);
    }
}

/// A registration whose expiration date lies in the past authorizes nobody.
pub proof fn lemma_expired_registration_invalid(
    r: AccountsGuarantee,
    guarantee: AccountRef,
    guarantor: AccountRef,
    now: i64,
)
    requires
        r.expiration_date is Some,
        r.expiration_date->0 < now,
    ensures
        !reg_matches(r, guarantee, guarantor, now),
{
}

/// A registration without an expiration date never expires: it matches at
/// every instant after its creation.
pub proof fn lemma_unexpiring_registration(r: AccountsGuarantee, now: i64)
    requires
        r.expiration_date is None,
        r.created_date < now,
    ensures
        reg_matches(r, r.guarantee, r.guarantor, now),
{
}

/// Round trip: a freshly stored path record is the latest match for its own
/// key in the submitter's scope, and the record handed back is exactly the
/// counter-signed, server-stamped submission — in particular its payload,
/// submitter identity and requested expiration are the original content.
pub proof fn lemma_put_then_get_path(
    paths: Seq<DynPathRow>,
    server: AccountRef,
    signature: Signature,
    nonce: u128,
    stamped_at: i64,
    p: GuaranteeSigned<DynPath>,
    now: i64,
)
    requires
        p.data.guarantor == server,
        time_valid(stamped_at, p.data.expiration_date, now),
    ensures
        is_latest_path_match(
            paths.push(path_row_of(server, signature, nonce, stamped_at, p)),
            p.guarantee.account,
            server,
            p.data.data.kind,
            p.data.data.word,
            now,
            paths.len() as int,
        ),
        path_record_of(path_row_of(server, signature, nonce, stamped_at, p)) == counter_signed(
            server,
            signature,
            nonce,
            stamped_at,
            p,
        ),
{
    let appended = paths.push(path_row_of(server, signature, nonce, stamped_at, p));
    assert(path_row_matches(
        appended[paths.len() as int],
        p.guarantee.account,
        server,
        p.data.data.kind,
        p.data.data.word,
        now,
    ));
}

} // verus!
