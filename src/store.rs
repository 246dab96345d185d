use vstd::prelude::*;

verus! {

/// The record kept for each user. It carries no fields.
#[derive(Clone, Copy, Debug, PartialEq, Eq, Structural)]
pub struct UserData;

/// The text that stands for a record in a reply body.
pub open spec fn marker_text() -> Seq<char> {
    "{}"@
}

impl UserData {
    /// The record's text form.
    pub fn text(&self) -> (r: String)
        ensures
            r@ == marker_text(),
    {
        String::from_str("{}")
    }
}

/// The stored records by id: slot `k` holds the record of id `k`, or none
/// where that slot is free.
pub open spec fn records_of(slots: Seq<Option<UserData>>) -> Map<usize, UserData> {
    Map::new(|k: usize| k < slots.len() && slots[k as int] is Some, |k: usize| slots[k as int]->0)
}

/// The record stored under `id`, if any.
pub open spec fn lookup(m: Map<usize, UserData>, id: usize) -> Option<UserData> {
    if m.contains_key(id) {
        Some(m[id])
    } else {
        None
    }
}

/// `ids` lists the keys of `m` exactly once each, in increasing order.
pub open spec fn is_listing(ids: Seq<usize>, m: Map<usize, UserData>) -> bool {
    &&& forall|i: int, j: int| 0 <= i < j < ids.len() ==> ids[i] < ids[j]
    &&& forall|i: int| 0 <= i < ids.len() ==> m.contains_key(#[trigger] ids[i])
    &&& forall|k: usize| m.contains_key(k) ==> #[trigger] ids.contains(k)
}

/// `id` is the lowest id that is not live in `m`.
pub open spec fn is_lowest_free(m: Map<usize, UserData>, id: usize) -> bool {
    &&& !m.contains_key(id)
    &&& forall|k: usize| k < id ==> #[trigger] m.contains_key(k)
}

/// A table of user records addressed by small integer ids. An insert takes
/// the lowest free slot, so a freed id is handed out again before the table
/// grows.
pub struct UserStore {
    slots: Vec<Option<UserData>>,
    /// Every slot below this one is occupied; the search for a free slot
    /// starts here.
    lowest: usize,
}

impl View for UserStore {
    type V = Map<usize, UserData>;

    closed spec fn view(&self) -> Map<usize, UserData> {
        records_of(self.slots@)
    }
}

impl UserStore {
    /// The store is well formed: the search start lies within the table and
    /// every slot below it is occupied.
    pub closed spec fn wf(&self) -> bool {
        &&& self.lowest <= self.slots@.len()
        &&& forall|k: int| 0 <= k < self.lowest ==> #[trigger] self.slots@[k] is Some
    }

    /// An empty store.
    pub fn new() -> (r: UserStore)
        ensures
            r.wf(),
            forall|k: usize| !#[trigger] r@.contains_key(k),
    {
        UserStore { slots: Vec::new(), lowest: 0 }
    }

    /// Stores `rec` under the lowest id that is not live and returns that id.
    pub fn insert(&mut self, rec: UserData) -> (id: usize)
        requires
            old(self).wf(),
        ensures
            final(self).wf(),
            inserted(*old(self), *final(self), rec, id),
    {
        let mut i: usize = self.lowest;
        while i < self.slots.len() && self.slots[i].is_some()
            invariant
                self.wf(),
                self.lowest <= i <= self.slots@.len(),
                self.slots@ == old(self).slots@,
                self.lowest == old(self).lowest,
                forall|k: int| 0 <= k < i ==> #[trigger] self.slots@[k] is Some,
            decreases self.slots@.len() - i,
        {
            i = i + 1;
        }
        let ghost pre = self.slots@;
        if i == self.slots.len() {
            self.slots.push(Some(rec));
        } else {
            self.slots[i] = Some(rec);
        }
        self.lowest = i;
        proof {
            assert forall|k: usize| k < i implies #[trigger] old(self)@.contains_key(k) by {
                assert(pre[k as int] is Some);
            }
            assert(self@ =~= old(self)@.insert(i, rec));
        }
        i
    }

    /// The record under `id`, or none where `id` is not live.
    pub fn get(&self, id: usize) -> (r: Option<UserData>)
        ensures
            r == lookup(self@, id),
    {
        if id < self.slots.len() {
            self.slots[id]
        } else {
            None
        }
    }

    /// Overwrites the record under a live `id`; reports whether `id` was live.
    pub fn update(&mut self, id: usize, rec: UserData) -> (r: bool)
        requires
            old(self).wf(),
        ensures
            final(self).wf(),
            updated(*old(self), *final(self), id, rec, r),
    {
        if id < self.slots.len() && self.slots[id].is_some() {
            self.slots[id] = Some(rec);
            assert(self@ =~= old(self)@.insert(id, rec));
            true
        } else {
            false
        }
    }

    /// Frees a live `id`; reports whether `id` was live.
    pub fn remove(&mut self, id: usize) -> (r: bool)
        requires
            old(self).wf(),
        ensures
            final(self).wf(),
            removed(*old(self), *final(self), id, r),
    {
        if id < self.slots.len() && self.slots[id].is_some() {
            self.slots[id] = None;
            if id < self.lowest {
                self.lowest = id;
            }
            assert(self@ =~= old(self)@.remove(id));
            true
        } else {
            false
        }
    }

    /// The live ids, in increasing order.
    pub fn list_ids(&self) -> (r: Vec<usize>)
        ensures
            is_listing(r@, self@),
    {
        let mut out: Vec<usize> = Vec::new();
        let mut i: usize = 0;
        while i < self.slots.len()
            invariant
                0 <= i <= self.slots@.len(),
                forall|a: int, b: int| 0 <= a < b < out@.len() ==> out@[a] < out@[b],
                forall|a: int| 0 <= a < out@.len() ==> #[trigger] out@[a] < i && self@.contains_key(out@[a]),
                forall|k: usize| k < i && #[trigger] self@.contains_key(k) ==> out@.contains(k),
            decreases self.slots@.len() - i,
        {
            if self.slots[i].is_some() {
                let ghost before = out@;
                out.push(i);
                proof {
                    assert forall|k: usize| k < i + 1 && #[trigger] self@.contains_key(k) implies out@.contains(k) by {
                        if k < i {
                            let j = choose|j: int| 0 <= j < before.len() && before[j] == k;
                            assert(out@[j] == k);
                        } else {
                            assert(out@[before.len() as int] == k);
                        }
                    }
                }
            }
            i = i + 1;
        }
        out
    }
}

/// `post` is `pre` with `rec` stored under `id`, the lowest id that was not
/// live in `pre`.
pub open spec fn inserted(pre: UserStore, post: UserStore, rec: UserData, id: usize) -> bool {
    &&& is_lowest_free(pre@, id)
    &&& post@ == pre@.insert(id, rec)
}

/// `res` tells whether `id` was live; if so `post` holds `rec` under it, and
/// otherwise `post` is `pre`.
pub open spec fn updated(pre: UserStore, post: UserStore, id: usize, rec: UserData, res: bool) -> bool {
    &&& res == pre@.contains_key(id)
    &&& res ==> post@ == pre@.insert(id, rec)
    &&& !res ==> post == pre
}

/// `res` tells whether `id` was live; if so `post` lacks it, and otherwise
/// `post` is `pre`.
pub open spec fn removed(pre: UserStore, post: UserStore, id: usize, res: bool) -> bool {
    &&& res == pre@.contains_key(id)
    &&& res ==> post@ == pre@.remove(id)
    &&& !res ==> post == pre
}

/// An id that an insert returns is not live in the store it was returned
/// from, and afterwards the live ids are the earlier ones and that id.
pub proof fn lemma_inserted_id_is_fresh(pre: UserStore, post: UserStore, rec: UserData, id: usize)
    requires
        inserted(pre, post, rec, id),
    ensures
        !pre@.contains_key(id),
        post@.dom() == pre@.dom().insert(id),
{
    assert(post@.dom() =~= pre@.dom().insert(id));
}

/// After an id is removed, the next insert hands out that id or a lower free
/// one, never a higher one; it is that same id when every lower id was live.
pub proof fn lemma_freed_id_reused_first(
    s0: UserStore,
    s1: UserStore,
    s2: UserStore,
    id: usize,
    rec: UserData,
    new_id: usize,
)
    requires
        removed(s0, s1, id, true),
        inserted(s1, s2, rec, new_id),
    ensures
        new_id <= id,
        (forall|k: usize| k < id ==> #[trigger] s0@.contains_key(k)) ==> new_id == id,
{
    assert(!s1@.contains_key(id));
    if (forall|k: usize| k < id ==> #[trigger] s0@.contains_key(k)) {
        if new_id < id {
            assert(s0@.contains_key(new_id));
            assert(s1@.contains_key(new_id));
        }
    }
}

/// A lookup after a remove finds nothing; a lookup after an insert finds the
/// record inserted.
pub proof fn lemma_lookup_after_remove_and_insert(
    s0: UserStore,
    s1: UserStore,
    s2: UserStore,
    id: usize,
    res: bool,
    rec: UserData,
    new_id: usize,
)
    requires
        removed(s0, s1, id, res),
        inserted(s1, s2, rec, new_id),
    ensures
        lookup(s1@, id) is None,
        lookup(s2@, new_id) == Some(rec),
{
}

/// An operation on an id that is not live reports absence and changes nothing.
pub proof fn lemma_absent_id_untouched(
    pre: UserStore,
    after_update: UserStore,
    after_remove: UserStore,
    id: usize,
    rec: UserData,
    upd: bool,
    rem: bool,
)
    requires
        !pre@.contains_key(id),
        updated(pre, after_update, id, rec, upd),
        removed(pre, after_remove, id, rem),
    ensures
        lookup(pre@, id) is None,
        !upd && after_update == pre,
        !rem && after_remove == pre,
{
}

} // verus!
