//! The ownership cache: a process-wide mapping from an owner (a platform user
//! id) to the ordered collection of characters that owner has durably created.
//!
//! The mapping is append-ordered per owner. An owner that is absent and an
//! owner mapped to an empty collection are indistinguishable through this
//! interface: every lookup of an unknown owner yields the empty sequence.
//! The cache is a shadow of durable state; it is loaded once from a full
//! table scan and mutated only after a durable write has been confirmed
//! (see the `sync` module for that discipline).

use vstd::prelude::*;

use crate::character::{row_ref, views_of, CharacterRef, CharacterRefView, CharacterRow,
    CharacterRowView};
use crate::text::{has_substring, is_prefix, lower_of, lowercase, str_contains, str_starts_with};

verus! {

broadcast use
    vstd::prelude::Seq::lemma_filter_push,
    vstd::prelude::Seq::lemma_filter_pred,
    vstd::prelude::Seq::lemma_filter_contains_rev;

/// One owner together with that owner's characters, in insertion order.
struct OwnerEntry {
    owner: u64,
    chars: Vec<CharacterRef>,
}

/// The views of a sequence of rows, in the same order.
pub open spec fn rows_views(rows: Seq<CharacterRow>) -> Seq<CharacterRowView> {
    rows.map_values(|r: CharacterRow| r@)
}

/// The characters that a sequence of scanned rows assigns to `owner`: the
/// rows with that owner, in their original relative order, reduced to
/// (id, name) references.
pub open spec fn group_of(rows: Seq<CharacterRowView>, owner: u64) -> Seq<CharacterRefView> {
    rows.filter(|r: CharacterRowView| r.owner == owner).map_values(|r: CharacterRowView| row_ref(r))
}

/// The characters of `chars` whose lowercased name starts with `q`, in their
/// original relative order.
pub open spec fn prefix_matches(chars: Seq<CharacterRefView>, q: Seq<char>) -> Seq<
    CharacterRefView,
> {
    chars.filter(|c: CharacterRefView| is_prefix(q, lower_of(c.name)))
}

/// The characters of `chars` whose lowercased name contains `q` somewhere but
/// does not start with it, in their original relative order.
pub open spec fn contains_only_matches(chars: Seq<CharacterRefView>, q: Seq<char>) -> Seq<
    CharacterRefView,
> {
    chars.filter(
        |c: CharacterRefView| !is_prefix(q, lower_of(c.name)) && has_substring(
            lower_of(c.name),
            q,
        ),
    )
}

/// The characters of `chars` other than those with the given id, in their
/// original relative order.
pub open spec fn without_id(chars: Seq<CharacterRefView>, id: u16) -> Seq<CharacterRefView> {
    chars.filter(|c: CharacterRefView| c.id != id)
}

/// The owners named by a snapshot, in snapshot order.
pub open spec fn snapshot_owners(r: Seq<(u64, Vec<CharacterRef>)>) -> Seq<u64> {
    r.map_values(|p: (u64, Vec<CharacterRef>)| p.0)
}

/// The ranked result of a case-insensitive search: every starts-with match
/// first, then every remaining contains match, each group in its original
/// relative order. A character matching both ways appears once, in the
/// starts-with group.
pub open spec fn ranked(chars: Seq<CharacterRefView>, q: Seq<char>) -> Seq<CharacterRefView> {
    prefix_matches(chars, q) + contains_only_matches(chars, q)
}

/// Every character's lowercased name starts with `q`, so the starts-with
/// group is the whole collection, unchanged in order.
proof fn lemma_prefix_matches_all(chars: Seq<CharacterRefView>, q: Seq<char>)
    requires
        forall|k: int|
            0 <= k < chars.len() ==> is_prefix(q, lower_of((#[trigger] chars[k]).name)),
    ensures
        prefix_matches(chars, q) == chars,
    decreases chars.len(),
{
    if chars.len() == 0 {
        assert(prefix_matches(chars, q) =~= chars);
    } else {
        let head = chars.drop_last();
        lemma_prefix_matches_all(head, q);
        assert(chars =~= head.push(chars.last()));
        assert(prefix_matches(head.push(chars.last()), q) == prefix_matches(head, q).push(
            chars.last(),
        ));
        assert(prefix_matches(chars, q) =~= chars);
    }
}

/// The empty query matches every character: everything starts with the empty
/// string, so a search for it returns the owner's whole collection in its
/// original order.
pub proof fn lemma_empty_query_matches_all(chars: Seq<CharacterRefView>)
    ensures
        ranked(chars, Seq::<char>::empty()) == chars,
{
    let q = Seq::<char>::empty();
    assert forall|k: int|
        0 <= k < chars.len() implies is_prefix(q, lower_of((#[trigger] chars[k]).name)) by {
        crate::text::lemma_empty_prefix(lower_of(chars[k].name));
    }
    lemma_prefix_matches_all(chars, q);
    let rest = contains_only_matches(chars, q);
    assert(rest.len() == 0) by {
        if rest.len() > 0 {
            assert(rest.contains(rest[0]));
            assert(chars.contains(rest[0]));
            let i = choose|i: int| 0 <= i < chars.len() && chars[i] == rest[0];
            assert(is_prefix(q, lower_of(chars[i].name)));
            assert(!is_prefix(q, lower_of(rest[0].name)));
        }
    }
    assert(ranked(chars, q) =~= chars);
}

/// In-memory shadow of the durable character table, grouped by owner.
pub struct DatabaseCharactersCache {
    entries: Vec<OwnerEntry>,
}

impl DatabaseCharactersCache {
    /// `owner` is stored at position `i`.
    spec fn has_owner_at(&self, owner: u64, i: int) -> bool {
        0 <= i < self.entries@.len() && self.entries@[i].owner == owner
    }

    /// `owner` has an entry in the cache. Absence only means the owner's
    /// collection is empty; it is not observable through this interface.
    pub closed spec fn has_owner(&self, owner: u64) -> bool {
        exists|i: int| self.has_owner_at(owner, i)
    }

    spec fn owner_index(&self, owner: u64) -> int {
        choose|i: int| self.has_owner_at(owner, i)
    }

    /// Validity of the cache: each owner has at most one entry. Established
    /// by every constructor and preserved by every mutation.
    pub closed spec fn wf(&self) -> bool {
        forall|i: int, j: int|
            0 <= i < j < self.entries@.len() ==> (#[trigger] self.entries@[i].owner) != (
            #[trigger] self.entries@[j].owner)
    }

    /// The characters the cache holds for `owner`, oldest first. The empty
    /// sequence for an owner that was never loaded or inserted.
    pub closed spec fn owner_chars(&self, owner: u64) -> Seq<CharacterRefView> {
        if self.has_owner(owner) {
            views_of(self.entries@[self.owner_index(owner)].chars@)
        } else {
            Seq::<CharacterRefView>::empty()
        }
    }

    /// The owners that hold an entry, in entry order.
    pub closed spec fn owners(&self) -> Seq<u64> {
        self.entries@.map_values(|e: OwnerEntry| e.owner)
    }

    /// A position holding `owner` is the one position the spec-level lookup
    /// denotes.
    proof fn lemma_index_pins(&self, owner: u64, i: int)
        requires
            self.wf(),
            self.has_owner_at(owner, i),
        ensures
            self.has_owner(owner),
            self.owner_index(owner) == i,
    {
        assert(self.has_owner(owner));
        let j = self.owner_index(owner);
        assert(self.has_owner_at(owner, j));
        if i < j {
            assert(self.entries@[i].owner != self.entries@[j].owner);
        } else if j < i {
            assert(self.entries@[j].owner != self.entries@[i].owner);
        }
    }

    /// Two caches with pointwise equal entries at every position relevant to
    /// `owner` hold the same characters for `owner`.
    proof fn lemma_chars_from_entries(a: &Self, b: &Self, owner: u64)
        requires
            a.wf(),
            b.wf(),
            a.entries@.len() == b.entries@.len(),
            forall|j: int|
                0 <= j < a.entries@.len() ==> (#[trigger] b.entries@[j].owner)
                    == a.entries@[j].owner,
            forall|j: int|
                0 <= j < a.entries@.len() && a.entries@[j].owner == owner
                    ==> (#[trigger] b.entries@[j].chars@) == a.entries@[j].chars@,
        ensures
            b.owner_chars(owner) == a.owner_chars(owner),
    {
        if a.has_owner(owner) {
            let i = choose|i: int| a.has_owner_at(owner, i);
            a.lemma_index_pins(owner, i);
            b.lemma_index_pins(owner, i);
        } else {
            assert(!b.has_owner(owner)) by {
                if b.has_owner(owner) {
                    let i = choose|i: int| b.has_owner_at(owner, i);
                    assert(a.has_owner_at(owner, i));
                }
            }
        }
    }

    /// The position of `owner`'s entry, if it has one.
    fn find_owner(&self, owner: u64) -> (r: Option<usize>)
        requires
            self.wf(),
        ensures
            match r {
                Some(i) => self.has_owner(owner) && self.owner_index(owner) == i as int && i
                    < self.entries@.len(),
                None => !self.has_owner(owner),
            },
    {
        let n = self.entries.len();
        let mut i: usize = 0;
        while i < n
            invariant
                n == self.entries@.len(),
                0 <= i <= n,
                self.wf(),
                forall|j: int| 0 <= j < i ==> (#[trigger] self.entries@[j].owner) != owner,
            decreases n - i,
        {
            if self.entries[i].owner == owner {
                proof {
                    self.lemma_index_pins(owner, i as int);
                }
                return Some(i);
            }
            i += 1;
        }
        None
    }

    /// An empty cache: every owner's collection is empty.
    pub fn new() -> (r: Self)
        ensures
            r.wf(),
            forall|o: u64| #[trigger] r.owner_chars(o) == Seq::<CharacterRefView>::empty(),
    {
        let r = DatabaseCharactersCache { entries: Vec::new() };
        proof {
            assert(forall|o: u64| !(#[trigger] r.has_owner(o)));
        }
        r
    }

    /// Replace the whole mapping with the content of a full table scan,
    /// grouping the rows by owner and preserving their relative order within
    /// each owner.
    pub fn load(rows: &Vec<CharacterRow>) -> (r: Self)
        ensures
            r.wf(),
            forall|o: u64| #[trigger] r.owner_chars(o) == group_of(rows_views(rows@), o),
    {
        let mut cache = Self::new();
        proof {
            assert forall|o: u64| #[trigger] cache.owner_chars(o) == group_of(
                rows_views(rows@.take(0)),
                o,
            ) by {
                assert(rows_views(rows@.take(0)) =~= Seq::<CharacterRowView>::empty());
                assert(group_of(rows_views(rows@.take(0)), o) =~= Seq::<CharacterRefView>::empty());
            }
        }
        let n = rows.len();
        let mut i: usize = 0;
        while i < n
            invariant
                n == rows@.len(),
                0 <= i <= n,
                cache.wf(),
                forall|o: u64| #[trigger] cache.owner_chars(o) == group_of(
                    rows_views(rows@.take(i as int)),
                    o,
                ),
            decreases n - i,
        {
            let row = &rows[i];
            cache.insert(row.owner, CharacterRef::new(row.id, row.name.clone()));
            proof {
                let rv = rows@[i as int]@;
                assert(rows_views(rows@.take(i + 1)) =~= rows_views(rows@.take(i as int)).push(rv));
                assert forall|o: u64| #[trigger] cache.owner_chars(o) == group_of(
                    rows_views(rows@.take(i + 1)),
                    o,
                ) by {
                    let prev = rows_views(rows@.take(i as int));
                    if o == rv.owner {
                        assert(group_of(prev.push(rv), o) =~= group_of(prev, o).push(row_ref(rv)));
                    } else {
                        assert(group_of(prev.push(rv), o) =~= group_of(prev, o));
                    }
                }
            }
            i += 1;
        }
        proof {
            assert(rows@.take(n as int) =~= rows@);
        }
        cache
    }

    /// The characters of `owner`, oldest first; empty if the owner is
    /// unknown. Returns a copy, so the caller keeps nothing borrowed from the
    /// shared cache.
    pub fn get(&self, owner: u64) -> (r: Vec<CharacterRef>)
        requires
            self.wf(),
        ensures
            views_of(r@) == self.owner_chars(owner),
    {
        match self.find_owner(owner) {
            None => {
                let r = Vec::new();
                proof {
                    assert(views_of(r@) =~= self.owner_chars(owner));
                }
                r
            },
            Some(i) => clone_chars(&self.entries[i].chars),
        }
    }

    /// Append one confirmed character to `owner`'s collection, creating the
    /// collection if the owner is new. No other owner's collection changes.
    pub fn insert(&mut self, owner: u64, character: CharacterRef)
        requires
            old(self).wf(),
        ensures
            final(self).wf(),
            final(self).owner_chars(owner) == old(self).owner_chars(owner).push(character@),
            forall|o: u64|
                o != owner ==> #[trigger] final(self).owner_chars(o) == old(self).owner_chars(o),
    {
        let ghost pre = *self;
        match self.find_owner(owner) {
            Some(i) => {
                let e = &mut self.entries[i];
                e.chars.push(character);
                proof {
                    assert(self.wf());
                    self.lemma_index_pins(owner, i as int);
                    assert(views_of(self.entries@[i as int].chars@) =~= views_of(
                        pre.entries@[i as int].chars@,
                    ).push(character@));
                    assert forall|o: u64|
                        o != owner implies #[trigger] self.owner_chars(o) == pre.owner_chars(
                        o,
                    ) by {
                        Self::lemma_chars_from_entries(&pre, self, o);
                    }
                }
            },
            None => {
                let mut chars = Vec::new();
                chars.push(character);
                self.entries.push(OwnerEntry { owner, chars });
                proof {
                    let len = pre.entries@.len() as int;
                    assert forall|j: int|
                        0 <= j < len implies (#[trigger] pre.entries@[j].owner) != owner by {
                        assert(!pre.has_owner_at(owner, j));
                    }
                    assert(self.wf());
                    self.lemma_index_pins(owner, len);
                    assert(views_of(self.entries@[len].chars@) =~= pre.owner_chars(owner).push(
                        character@,
                    ));
                    assert forall|o: u64|
                        o != owner implies #[trigger] self.owner_chars(o) == pre.owner_chars(
                        o,
                    ) by {
                        if pre.has_owner(o) {
                            let j = choose|j: int| pre.has_owner_at(o, j);
                            pre.lemma_index_pins(o, j);
                            self.lemma_index_pins(o, j);
                        } else {
                            assert(!self.has_owner(o)) by {
                                if self.has_owner(o) {
                                    let j = choose|j: int| self.has_owner_at(o, j);
                                    assert(j != len);
                                    assert(pre.has_owner_at(o, j));
                                }
                            }
                        }
                    }
                }
            },
        }
    }

    /// Remove the character with the given id from `owner`'s collection, if
    /// it is there; removing an id the owner does not hold changes nothing.
    /// No other owner's collection changes either way.
    pub fn remove(&mut self, owner: u64, id: u16)
        requires
            old(self).wf(),
        ensures
            final(self).wf(),
            final(self).owner_chars(owner) == without_id(old(self).owner_chars(owner), id),
            forall|o: u64|
                o != owner ==> #[trigger] final(self).owner_chars(o) == old(self).owner_chars(o),
    {
        let ghost pre = *self;
        match self.find_owner(owner) {
            None => {
                proof {
                    assert(without_id(pre.owner_chars(owner), id) =~= pre.owner_chars(owner));
                }
            },
            Some(i) => {
                let kept = filter_out_id(&self.entries[i].chars, id);
                let e = &mut self.entries[i];
                e.chars = kept;
                proof {
                    assert(self.wf());
                    self.lemma_index_pins(owner, i as int);
                    assert forall|o: u64|
                        o != owner implies #[trigger] self.owner_chars(o) == pre.owner_chars(
                        o,
                    ) by {
                        Self::lemma_chars_from_entries(&pre, self, o);
                    }
                }
            },
        }
    }

    /// The ranked, case-insensitive search used by interactive autocomplete:
    /// all characters whose name starts with `query` first, then all whose
    /// name merely contains it, each group in its original relative order.
    /// The empty query matches every character. Unknown owners yield the
    /// empty result.
    pub fn search(&self, owner: u64, query: &str) -> (r: Vec<CharacterRef>)
        requires
            self.wf(),
        ensures
            views_of(r@) == ranked(self.owner_chars(owner), lower_of(query@)),
    {
        let q = lowercase(query);
        let chars = self.get(owner);
        let ghost qv = lower_of(query@);
        let ghost all = self.owner_chars(owner);
        let mut begins: Vec<CharacterRef> = Vec::new();
        let mut rest: Vec<CharacterRef> = Vec::new();
        let n = chars.len();
        let mut i: usize = 0;
        while i < n
            invariant
                n == chars@.len(),
                0 <= i <= n,
                q@ == qv,
                views_of(chars@) == all,
                views_of(begins@) == prefix_matches(views_of(chars@.take(i as int)), qv),
                views_of(rest@) == contains_only_matches(views_of(chars@.take(i as int)), qv),
            decreases n - i,
        {
            let c = &chars[i];
            let lname = lowercase(c.name.as_str());
            proof {
                assert(views_of(chars@.take(i + 1)) =~= views_of(chars@.take(i as int)).push(
                    chars@[i as int]@,
                ));
            }
            if str_starts_with(lname.as_str(), q.as_str()) {
                begins.push(c.clone());
            } else if str_contains(lname.as_str(), q.as_str()) {
                rest.push(c.clone());
            }
            proof {
                let prev = views_of(chars@.take(i as int));
                let cv = chars@[i as int]@;
                assert(views_of(begins@) =~= prefix_matches(prev.push(cv), qv));
                assert(views_of(rest@) =~= contains_only_matches(prev.push(cv), qv));
            }
            i += 1;
        }
        proof {
            assert(chars@.take(n as int) =~= chars@);
        }
        let mut r = begins;
        let mut rest = rest;
        r.append(&mut rest);
        proof {
            assert(views_of(r@) =~= prefix_matches(all, qv) + contains_only_matches(all, qv));
        }
        r
    }

    /// The prefix-only variant of the search: the characters whose
    /// lowercased name starts with the lowercased query, in their original
    /// relative order.
    pub fn search_prefix(&self, owner: u64, query: &str) -> (r: Vec<CharacterRef>)
        requires
            self.wf(),
        ensures
            views_of(r@) == prefix_matches(self.owner_chars(owner), lower_of(query@)),
    {
        let q = lowercase(query);
        let chars = self.get(owner);
        let ghost qv = lower_of(query@);
        let ghost all = self.owner_chars(owner);
        let mut found: Vec<CharacterRef> = Vec::new();
        let n = chars.len();
        let mut i: usize = 0;
        while i < n
            invariant
                n == chars@.len(),
                0 <= i <= n,
                q@ == qv,
                views_of(chars@) == all,
                views_of(found@) == prefix_matches(views_of(chars@.take(i as int)), qv),
            decreases n - i,
        {
            let c = &chars[i];
            let lname = lowercase(c.name.as_str());
            proof {
                assert(views_of(chars@.take(i + 1)) =~= views_of(chars@.take(i as int)).push(
                    chars@[i as int]@,
                ));
            }
            if str_starts_with(lname.as_str(), q.as_str()) {
                found.push(c.clone());
            }
            proof {
                let prev = views_of(chars@.take(i as int));
                let cv = chars@[i as int]@;
                assert(views_of(found@) =~= prefix_matches(prev.push(cv), qv));
            }
            i += 1;
        }
        proof {
            assert(chars@.take(n as int) =~= chars@);
        }
        found
    }

    /// A copy of the whole mapping, one pair per stored owner, for rendering
    /// a diagnostic dump. Owners appear once each, in entry order.
    pub fn snapshot(&self) -> (r: Vec<(u64, Vec<CharacterRef>)>)
        requires
            self.wf(),
        ensures
            snapshot_owners(r@) == self.owners(),
            forall|j: int|
                0 <= j < r@.len() ==> views_of((#[trigger] r@[j]).1@) == self.owner_chars(r@[j].0),
    {
        let mut r: Vec<(u64, Vec<CharacterRef>)> = Vec::new();
        let n = self.entries.len();
        let mut i: usize = 0;
        while i < n
            invariant
                n == self.entries@.len(),
                0 <= i <= n,
                self.wf(),
                r@.len() == i,
                forall|j: int|
                    0 <= j < i ==> (#[trigger] r@[j]).0 == self.entries@[j].owner,
                forall|j: int|
                    0 <= j < i ==> views_of((#[trigger] r@[j]).1@) == self.owner_chars(r@[j].0),
            decreases n - i,
        {
            let chars = clone_chars(&self.entries[i].chars);
            let owner = self.entries[i].owner;
            proof {
                self.lemma_index_pins(owner, i as int);
            }
            r.push((owner, chars));
            i += 1;
        }
        proof {
            assert(snapshot_owners(r@) =~= self.owners());
        }
        r
    }
}

/// A copy of a character list: equal views, element for element.
fn clone_chars(chars: &Vec<CharacterRef>) -> (r: Vec<CharacterRef>)
    ensures
        r@ == chars@,
{
    let mut r: Vec<CharacterRef> = Vec::new();
    let n = chars.len();
    let mut i: usize = 0;
    while i < n
        invariant
            n == chars@.len(),
            0 <= i <= n,
            r@ == chars@.take(i as int),
        decreases n - i,
    {
        r.push(chars[i].clone());
        proof {
            assert(r@ =~= chars@.take(i + 1));
        }
        i += 1;
    }
    proof {
        assert(chars@.take(n as int) =~= chars@);
    }
    r
}

/// The characters of `chars` other than the one with the given id, in their
/// original relative order.
fn filter_out_id(chars: &Vec<CharacterRef>, id: u16) -> (r: Vec<CharacterRef>)
    ensures
        views_of(r@) == without_id(views_of(chars@), id),
{
    let mut r: Vec<CharacterRef> = Vec::new();
    let n = chars.len();
    let mut i: usize = 0;
    while i < n
        invariant
            n == chars@.len(),
            0 <= i <= n,
            views_of(r@) == without_id(views_of(chars@.take(i as int)), id),
        decreases n - i,
    {
        proof {
            assert(views_of(chars@.take(i + 1)) =~= views_of(chars@.take(i as int)).push(
                chars@[i as int]@,
            ));
        }
        if chars[i].id != id {
            r.push(chars[i].clone());
        }
        proof {
            let prev = views_of(chars@.take(i as int));
            let cv = chars@[i as int]@;
            assert(views_of(r@) =~= without_id(prev.push(cv), id));
        }
        i += 1;
    }
    proof {
        assert(chars@.take(n as int) =~= chars@);
    }
    r
}

} // verus!
