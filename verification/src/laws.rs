//! Engine-wide laws: properties relating several operations, stated over the
//! store's mathematical model and proved once and for all. The per-operation
//! guarantees — the create/read round trip, partial-write safety, the exact
//! not-found condition — stand in the operations' own contracts in
//! `store`.

use vstd::prelude::*;

use crate::store::expired;
use crate::store::read_model;
use crate::store::storage_name_spec;
use crate::store::sweep_rel;
use crate::store::FileModel;
use crate::store::ReadOutcome;
use crate::text::lemma_lower_of_upper;
use crate::text::upper_chars;

verus! {

/// Lookup is case-insensitive: retrieving an identifier upcased (ASCII-wise)
/// reads the very same file, with the very same outcome, as retrieving the
/// identifier itself — against any directory.
pub proof fn lemma_read_case_insensitive(m: Map<Seq<char>, FileModel>, id: Seq<char>)
    ensures
        read_model(m, upper_chars(id)) == read_model(m, id),
{
    lemma_lower_of_upper(id);
    assert(storage_name_spec(upper_chars(id)) == storage_name_spec(id));
}

/// Identifiers are unique among live pastes: a second create, which only
/// commits to a name absent from the directory it sees, can never hand out
/// the identifier of a paste already present — and it leaves that paste's
/// content retrievable unchanged.
pub proof fn lemma_successive_creates_distinct(
    m0: Map<Seq<char>, FileModel>,
    id1: Seq<char>,
    f1: FileModel,
    id2: Seq<char>,
    f2: FileModel,
)
    requires
        !m0.dom().contains(storage_name_spec(id1)),
        !m0.insert(storage_name_spec(id1), f1).dom().contains(storage_name_spec(id2)),
    ensures
        id2 != id1,
        storage_name_spec(id2) != storage_name_spec(id1),
        read_model(m0.insert(storage_name_spec(id1), f1).insert(storage_name_spec(id2), f2), id1)
            == read_model(m0.insert(storage_name_spec(id1), f1), id1),
{
    let n1 = storage_name_spec(id1);
    let n2 = storage_name_spec(id2);
    let m1 = m0.insert(n1, f1);
    assert(m1.dom().contains(n1));
    assert(n2 != n1);
    assert(m1.insert(n2, f2)[n1] == m1[n1]);
}

/// Retention: after one sweep pass with a non-zero time-to-live, a paste
/// whose age reached the time-to-live is gone — a read finds nothing — and a
/// younger paste is still read exactly as before.
pub proof fn lemma_sweep_retention(
    pre: Map<Seq<char>, FileModel>,
    post: Map<Seq<char>, FileModel>,
    id: Seq<char>,
    now: u64,
    ttl_days: u32,
)
    requires
        sweep_rel(pre, post, now, ttl_days),
        ttl_days != 0,
        pre.dom().contains(storage_name_spec(id)),
        pre[storage_name_spec(id)].is_file,
    ensures
        pre[storage_name_spec(id)].created_at as int + (ttl_days as int) * 86400 <= now as int
            ==> read_model(post, id) == ReadOutcome::NotFound,
        pre[storage_name_spec(id)].created_at as int + (ttl_days as int) * 86400 > now as int
            ==> read_model(post, id) == read_model(pre, id),
{
    let n = storage_name_spec(id);
    if expired(pre[n], now, ttl_days) {
        assert(!post.dom().contains(n));
    } else {
        assert(post.dom().contains(n));
        assert(post[n] == pre[n]);
    }
}

/// A time-to-live of zero days disables sweeping: a pass that satisfies the
/// sweep relation with `ttl_days == 0` removed nothing and changed nothing.
pub proof fn lemma_zero_ttl_sweeps_nothing(
    pre: Map<Seq<char>, FileModel>,
    post: Map<Seq<char>, FileModel>,
    now: u64,
)
    requires
        sweep_rel(pre, post, now, 0),
    ensures
        post == pre,
{
    assert forall|n: Seq<char>| #[trigger] pre.dom().contains(n) implies post.dom().contains(
        n,
    ) by {
        assert(!expired(pre[n], now, 0));
    }
    assert(post =~= pre);
}

} // verus!
