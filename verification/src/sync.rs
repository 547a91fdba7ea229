//! The synchronization discipline between the durable store and the
//! ownership cache, stated over the cache's contracts: every lifecycle event
//! is a strict two-phase sequence — durable write first, cache mutation only
//! after the write is confirmed — so the cache can only ever lag behind the
//! store, never lead it.
//!
//! The durable side is modelled by the set of rows that were committed at
//! some point (a set that only grows: a later delete does not unmake the fact
//! that the row once existed). Each event's cache transition is exactly the
//! shape the cache methods' contracts give; the lemma at the bottom shows the
//! write-ordering invariant is preserved by every event.

use vstd::prelude::*;

use crate::cache::{group_of, rows_views, without_id, DatabaseCharactersCache};
use crate::character::{CharacterRefView, CharacterRow, CharacterRowView};

verus! {

broadcast use
    vstd::prelude::Seq::lemma_filter_pred,
    vstd::prelude::Seq::lemma_filter_contains_rev,
    vstd::prelude::Seq::lemma_filter_push;

/// The durable row a cached character of `owner` corresponds to.
pub open spec fn row_of(owner: u64, c: CharacterRefView) -> CharacterRowView {
    CharacterRowView { owner, id: c.id, name: c.name }
}

/// The write-ordering invariant: every character the cache holds corresponds
/// to a row that was committed at some prior point. The converse need not
/// hold — the cache may lag.
pub open spec fn cache_lags(cache: DatabaseCharactersCache, history: Set<CharacterRowView>) -> bool {
    forall|o: u64, k: int|
        0 <= k < cache.owner_chars(o).len() ==> history.contains(
            row_of(o, #[trigger] cache.owner_chars(o)[k]),
        )
}

/// One lifecycle event of the synchronizer, after its durable phase
/// succeeded.
pub ghost enum SyncEvent {
    /// The startup sync: a full scan of the committed rows, loaded into a
    /// fresh cache before any interactive traffic.
    StartupLoad { rows: Seq<CharacterRow> },
    /// A character insert committed; the cache mutation was then applied, or
    /// skipped because exclusive access could not be had (the cache is then
    /// stale but still lags).
    CreateCommitted { owner: u64, character: CharacterRefView, applied: bool },
    /// A character delete committed; the removal is scoped to the requesting
    /// owner.
    DeleteCommitted { owner: u64, id: u16 },
}

/// The committed-row history after an event: a create adds its row; a load
/// and a delete add nothing (a delete removes a live row, but the history
/// records what ever existed).
pub open spec fn history_after(history: Set<CharacterRowView>, ev: SyncEvent) -> Set<
    CharacterRowView,
> {
    match ev {
        SyncEvent::StartupLoad { .. } => history,
        SyncEvent::CreateCommitted { owner, character, .. } => history.insert(
            row_of(owner, character),
        ),
        SyncEvent::DeleteCommitted { .. } => history,
    }
}

/// The cache transition an event performs, exactly as the cache methods'
/// contracts state it.
pub open spec fn cache_step(
    pre: DatabaseCharactersCache,
    post: DatabaseCharactersCache,
    ev: SyncEvent,
) -> bool {
    match ev {
        SyncEvent::StartupLoad { rows } => forall|o: u64| #[trigger]
            post.owner_chars(o) == group_of(rows_views(rows), o),
        SyncEvent::CreateCommitted { owner, character, applied } => if applied {
            post.owner_chars(owner) == pre.owner_chars(owner).push(character)
                && forall|o: u64|
                    o != owner ==> #[trigger] post.owner_chars(o) == pre.owner_chars(o)
        } else {
            post == pre
        },
        SyncEvent::DeleteCommitted { owner, id } => post.owner_chars(owner) == without_id(
            pre.owner_chars(owner),
            id,
        ) && forall|o: u64| o != owner ==> #[trigger] post.owner_chars(o) == pre.owner_chars(o),
    }
}

/// A load from rows that were all committed at some point yields a cache
/// within the history.
proof fn lemma_load_lags(
    rows: Seq<CharacterRow>,
    cache: DatabaseCharactersCache,
    history: Set<CharacterRowView>,
)
    requires
        forall|i: int| 0 <= i < rows.len() ==> history.contains(#[trigger] rows[i]@),
        forall|o: u64| #[trigger] cache.owner_chars(o) == group_of(rows_views(rows), o),
    ensures
        cache_lags(cache, history),
{
    assert forall|o: u64, k: int|
        0 <= k < cache.owner_chars(o).len() implies history.contains(
        row_of(o, #[trigger] cache.owner_chars(o)[k]),
    ) by {
        let rv = rows_views(rows);
        let matching = rv.filter(|r: CharacterRowView| r.owner == o);
        assert(cache.owner_chars(o)[k] == group_of(rv, o)[k]);
        let row = matching[k];
        assert(matching.contains(row));
        assert(rv.contains(row));
        let i = choose|i: int| 0 <= i < rv.len() && rv[i] == row;
        assert(rows[i]@ == row);
        assert(row.owner == o);
        assert(row_of(o, cache.owner_chars(o)[k]) == row);
    }
}

/// A removal keeps only characters the owner already held, so it cannot
/// bring the cache ahead of the history.
proof fn lemma_remove_lags(
    pre: DatabaseCharactersCache,
    post: DatabaseCharactersCache,
    owner: u64,
    id: u16,
    history: Set<CharacterRowView>,
)
    requires
        cache_lags(pre, history),
        post.owner_chars(owner) == without_id(pre.owner_chars(owner), id),
        forall|o: u64| o != owner ==> #[trigger] post.owner_chars(o) == pre.owner_chars(o),
    ensures
        cache_lags(post, history),
{
    assert forall|o: u64, k: int|
        0 <= k < post.owner_chars(o).len() implies history.contains(
        row_of(o, #[trigger] post.owner_chars(o)[k]),
    ) by {
        if o == owner {
            let c = post.owner_chars(o)[k];
            let kept = without_id(pre.owner_chars(o), id);
            assert(kept.contains(c));
            assert(pre.owner_chars(o).contains(c));
            let j = choose|j: int| 0 <= j < pre.owner_chars(o).len() && pre.owner_chars(o)[j] == c;
            assert(history.contains(row_of(o, pre.owner_chars(o)[j])));
        } else {
            assert(history.contains(row_of(o, pre.owner_chars(o)[k])));
        }
    }
}

/// The write-ordering invariant is preserved by every synchronizer event:
/// if the cache reflects a character after the event, a corresponding durable
/// row existed at some prior point. This is the discipline's guarantee that a
/// crash or a skipped cache update leaves the cache stale-but-safe, never
/// ahead of the store.
pub proof fn lemma_write_ordering_preserved(
    pre: DatabaseCharactersCache,
    post: DatabaseCharactersCache,
    history: Set<CharacterRowView>,
    ev: SyncEvent,
)
    requires
        cache_lags(pre, history),
        cache_step(pre, post, ev),
        ev matches SyncEvent::StartupLoad { rows } ==> forall|i: int|
            0 <= i < rows.len() ==> history.contains(#[trigger] rows[i]@),
    ensures
        cache_lags(post, history_after(history, ev)),
{
    match ev {
        SyncEvent::StartupLoad { rows } => {
            lemma_load_lags(rows, post, history);
        },
        SyncEvent::CreateCommitted { owner, character, applied } => {
            let h2 = history.insert(row_of(owner, character));
            assert forall|o: u64, k: int|
                0 <= k < post.owner_chars(o).len() implies h2.contains(
                row_of(o, #[trigger] post.owner_chars(o)[k]),
            ) by {
                if applied && o == owner && k == pre.owner_chars(o).len() {
                    assert(post.owner_chars(o)[k] == character);
                } else {
                    assert(post.owner_chars(o)[k] == pre.owner_chars(o)[k]);
                    assert(history.contains(row_of(o, pre.owner_chars(o)[k])));
                }
            }
        },
        SyncEvent::DeleteCommitted { owner, id } => {
            lemma_remove_lags(pre, post, owner, id, history);
        },
    }
}

/// Filtering out an id keeps a sequence in which the id no longer occurs, so
/// a second filtering changes nothing.
proof fn lemma_without_id_identity(chars: Seq<CharacterRefView>, id: u16)
    requires
        forall|k: int| 0 <= k < chars.len() ==> (#[trigger] chars[k]).id != id,
    ensures
        without_id(chars, id) == chars,
    decreases chars.len(),
{
    if chars.len() == 0 {
        assert(without_id(chars, id) =~= chars);
    } else {
        let head = chars.drop_last();
        lemma_without_id_identity(head, id);
        assert(chars =~= head.push(chars.last()));
        assert(without_id(head.push(chars.last()), id) == without_id(head, id).push(chars.last()));
    }
}

/// Idempotent removal: removing an id from an owner's collection and then
/// removing the same id again has the same observable effect as removing it
/// once — the second removal changes no owner's collection.
pub proof fn lemma_remove_idempotent(
    s0: DatabaseCharactersCache,
    s1: DatabaseCharactersCache,
    s2: DatabaseCharactersCache,
    owner: u64,
    id: u16,
)
    requires
        cache_step(s0, s1, SyncEvent::DeleteCommitted { owner, id }),
        cache_step(s1, s2, SyncEvent::DeleteCommitted { owner, id }),
    ensures
        forall|o: u64| #[trigger] s2.owner_chars(o) == s1.owner_chars(o),
{
    assert forall|o: u64| #[trigger] s2.owner_chars(o) == s1.owner_chars(o) by {
        if o == owner {
            let once = without_id(s0.owner_chars(owner), id);
            assert(forall|k: int| 0 <= k < once.len() ==> (#[trigger] once[k]).id != id);
            lemma_without_id_identity(once, id);
        }
    }
}

/// Order preservation: two inserts for one owner append in order, however
/// many events for other owners happen between them — the owner's collection
/// afterwards is the collection before, with the two characters appended in
/// insertion order.
pub proof fn lemma_order_preservation(
    s0: DatabaseCharactersCache,
    s1: DatabaseCharactersCache,
    s2: DatabaseCharactersCache,
    s3: DatabaseCharactersCache,
    owner: u64,
    c1: CharacterRefView,
    c2: CharacterRefView,
)
    requires
        cache_step(s0, s1, SyncEvent::CreateCommitted { owner, character: c1, applied: true }),
        s2.owner_chars(owner) == s1.owner_chars(owner),
        cache_step(s2, s3, SyncEvent::CreateCommitted { owner, character: c2, applied: true }),
    ensures
        s3.owner_chars(owner) == s0.owner_chars(owner).push(c1).push(c2),
{
}

/// No leak on an unknown owner: a load from rows none of which belong to an
/// owner leaves that owner's collection empty, so a lookup of an owner never
/// loaded yields the empty sequence rather than a failure.
pub proof fn lemma_unknown_owner_empty(
    rows: Seq<CharacterRow>,
    cache: DatabaseCharactersCache,
    owner: u64,
)
    requires
        forall|i: int| 0 <= i < rows.len() ==> (#[trigger] rows[i]@).owner != owner,
        forall|o: u64| #[trigger] cache.owner_chars(o) == group_of(rows_views(rows), o),
    ensures
        cache.owner_chars(owner) == Seq::<CharacterRefView>::empty(),
{
    let rv = rows_views(rows);
    let matching = rv.filter(|r: CharacterRowView| r.owner == owner);
    assert(matching.len() == 0) by {
        if matching.len() > 0 {
            assert(matching[0].owner == owner);
            assert(matching.contains(matching[0]));
            assert(rv.contains(matching[0]));
            let i = choose|i: int| 0 <= i < rv.len() && rv[i] == matching[0];
            assert(rows[i]@.owner != owner);
        }
    }
    assert(cache.owner_chars(owner) =~= Seq::<CharacterRefView>::empty());
}

/// The history only grows, so a cache within an older history is within every
/// later one: once the invariant holds it survives unrelated commits.
pub proof fn lemma_lags_monotone(
    cache: DatabaseCharactersCache,
    h1: Set<CharacterRowView>,
    h2: Set<CharacterRowView>,
)
    requires
        cache_lags(cache, h1),
        h1.subset_of(h2),
    ensures
        cache_lags(cache, h2),
{
}

} // verus!
