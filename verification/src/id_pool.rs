//! Ids handed out in order and reused once freed.
use vstd::prelude::*;

verus! {

/// Abstract state of an [`IdPool`]: the stack of ids handed back by `free`
/// (the last one is reused first) and the next never-used id.
pub struct IdPoolView {
    pub freed: Seq<u32>,
    pub next_id: u32,
}

/// Hands out `u32` ids, reusing freed ids before minting new ones.
pub struct IdPool {
    freed_ids: Vec<u32>,
    next_id: u32,
}

impl View for IdPool {
    type V = IdPoolView;

    closed spec fn view(&self) -> IdPoolView {
        IdPoolView { freed: self.freed_ids@, next_id: self.next_id }
    }
}

impl IdPoolView {
    /// The pool can hand out an id without the counter overflowing.
    pub open spec fn can_get(self) -> bool {
        self.freed.len() > 0 || self.next_id < u32::MAX
    }

    /// The id that `get` hands out and the state it leaves behind.
    pub open spec fn get(self) -> (u32, IdPoolView) {
        if self.freed.len() > 0 {
            (self.freed.last(), IdPoolView { freed: self.freed.drop_last(), next_id: self.next_id })
        } else {
            (self.next_id, IdPoolView { freed: self.freed, next_id: (self.next_id + 1) as u32 })
        }
    }

    /// The state that `free(id)` leaves behind.
    pub open spec fn free(self, id: u32) -> IdPoolView {
        IdPoolView { freed: self.freed.push(id), next_id: self.next_id }
    }

    /// The ids this pool may still hand out: the freed ones and every id from `next_id` on.
    pub open spec fn available(self) -> Set<u32> {
        Set::new(|id: u32| self.freed.contains(id) || id >= self.next_id)
    }

    /// The pool, made with first id `first`, accounts for the ids `live` (handed out and
    /// not freed since): no id is on the freed stack twice, none is both live and freed, and
    /// the live and freed ids together are exactly the ids minted so far, `first..next_id`.
    pub open spec fn accounts_for(self, first: u32, live: Set<u32>) -> bool {
        &&& first <= self.next_id
        &&& self.freed.no_duplicates()
        &&& forall|i: int| 0 <= i < self.freed.len() ==> !live.contains(#[trigger] self.freed[i])
        &&& forall|x: u32| #![trigger live.contains(x)] #![trigger self.freed.contains(x)]
            (self.freed.contains(x) || live.contains(x)) <==> (first <= x && x < self.next_id)
    }

    /// No id was freed twice and every freed id was minted before.
    pub open spec fn well_formed(self) -> bool {
        &&& self.freed.no_duplicates()
        &&& forall|i: int| 0 <= i < self.freed.len() ==> #[trigger] self.freed[i] < self.next_id
    }
}

impl IdPool {
    /// Creates a pool whose first minted id is `first_id`.
    pub fn new(first_id: u32) -> (pool: Self)
        ensures
            pool@.freed == Seq::<u32>::empty(),
            pool@.next_id == first_id,
    {
        Self { freed_ids: Vec::new(), next_id: first_id }
    }

    /// Returns the most recently freed id, or mints a new one.
    pub fn get(&mut self) -> (id: u32)
        requires
            old(self)@.can_get(),
        ensures
            (id, final(self)@) == old(self)@.get(),
    {
        if let Some(id) = self.freed_ids.pop() {
            id
        } else {
            let id = self.next_id;
            self.next_id = self.next_id + 1;
            id
        }
    }

    /// Hands `id` back to the pool for reuse.
    pub fn free(&mut self, id: u32)
        ensures
            final(self)@ == old(self)@.free(id),
    {
        self.freed_ids.push(id);
    }
}

/// Freeing an id and then asking for one gives that id back and leaves the pool as it was.
pub proof fn lemma_free_then_get(pool: IdPoolView, id: u32)
    ensures
        pool.free(id).can_get(),
        pool.free(id).get() == (id, pool),
{
    assert(pool.free(id).freed.drop_last() =~= pool.freed);
}

/// `get` on a well-formed pool hands out an available id, keeps the pool well formed,
/// and removes exactly that id from the available ones.
pub proof fn lemma_get_takes_available(pool: IdPoolView)
    requires
        pool.well_formed(),
        pool.can_get(),
    ensures
        pool.available().contains(pool.get().0),
        pool.get().1.well_formed(),
        pool.get().1.available() == pool.available().remove(pool.get().0),
{
    let (id, after) = pool.get();
    if pool.freed.len() > 0 {
        let last = pool.freed.len() - 1;
        assert(pool.freed[last] == id);
        assert forall|x: u32| after.freed.contains(x) implies x != id by {
            let k = choose|k: int| 0 <= k < after.freed.len() && after.freed[k] == x;
            assert(pool.freed[k] == x);
        }
        assert forall|x: u32| #[trigger] after.available().contains(x) <==> pool.available().remove(id).contains(x) by {
            if pool.freed.contains(x) && x != id {
                let k = choose|k: int| 0 <= k < pool.freed.len() && pool.freed[k] == x;
                assert(k != last);
                assert(after.freed[k] == x);
            }
            if after.freed.contains(x) {
                let k = choose|k: int| 0 <= k < after.freed.len() && after.freed[k] == x;
                assert(pool.freed[k] == x);
            }
        }
        assert(after.available() =~= pool.available().remove(id));
    } else {
        assert forall|x: u32| #[trigger] after.available().contains(x) <==> pool.available().remove(id).contains(x) by {
            assert(!pool.freed.contains(x));
        }
        assert(after.available() =~= pool.available().remove(id));
    }
}

/// Two `get`s in a row on a well-formed pool never hand out the same id.
pub proof fn lemma_get_twice_distinct(pool: IdPoolView)
    requires
        pool.well_formed(),
        pool.can_get(),
        pool.get().1.can_get(),
    ensures
        pool.get().0 != pool.get().1.get().0,
{
    lemma_get_takes_available(pool);
    lemma_get_takes_available(pool.get().1);
}

/// Freeing an id that the pool handed out (minted and not available) keeps the pool
/// well formed and makes exactly that id available again.
pub proof fn lemma_free_returns_id(pool: IdPoolView, id: u32)
    requires
        pool.well_formed(),
        id < pool.next_id,
        !pool.available().contains(id),
    ensures
        pool.free(id).well_formed(),
        pool.free(id).available() == pool.available().insert(id),
{
    let after = pool.free(id);
    assert(!pool.freed.contains(id));
    assert forall|i: int, j: int| 0 <= i < j < after.freed.len() implies after.freed[i] != after.freed[j] by {
        if j == after.freed.len() - 1 {
            assert(pool.freed.contains(after.freed[i]));
        }
    }
    assert forall|x: u32| #[trigger] after.available().contains(x) <==> pool.available().insert(id).contains(x) by {
        if after.freed.contains(x) && x != id {
            let k = choose|k: int| 0 <= k < after.freed.len() && after.freed[k] == x;
            assert(pool.freed[k] == x);
        }
        if pool.freed.contains(x) {
            let k = choose|k: int| 0 <= k < pool.freed.len() && pool.freed[k] == x;
            assert(after.freed[k] == x);
        }
        if x == id {
            assert(after.freed[after.freed.len() - 1] == id);
        }
    }
    assert(after.available() =~= pool.available().insert(id));
}

/// A new pool made with first id `first` accounts for no live id.
pub proof fn lemma_new_accounts_for(first: u32)
    ensures
        (IdPoolView { freed: Seq::<u32>::empty(), next_id: first }).accounts_for(first, Set::<u32>::empty()),
{
}

/// Over any history of `get`s and of `free`s of live ids: `get` hands out an id of at least
/// `first` that is not live, and the pool then accounts for it as live as well.
pub proof fn lemma_get_accounts_for(pool: IdPoolView, first: u32, live: Set<u32>)
    requires
        pool.accounts_for(first, live),
        pool.can_get(),
    ensures
        !live.contains(pool.get().0),
        first <= pool.get().0,
        pool.get().1.accounts_for(first, live.insert(pool.get().0)),
{
    let (id, after) = pool.get();
    let live2 = live.insert(id);
    if pool.freed.len() > 0 {
        let last = pool.freed.len() - 1;
        assert(pool.freed[last] == id);
        assert(pool.freed.contains(id));
        assert forall|i: int| 0 <= i < after.freed.len() implies !live2.contains(#[trigger] after.freed[i]) by {
            assert(pool.freed[i] == after.freed[i]);
            assert(i != last);
        }
        assert forall|x: u32| #![trigger live2.contains(x)] #![trigger after.freed.contains(x)]
            (after.freed.contains(x) || live2.contains(x)) <==> (first <= x && x < after.next_id) by {
            if after.freed.contains(x) {
                let k = choose|k: int| 0 <= k < after.freed.len() && after.freed[k] == x;
                assert(pool.freed[k] == x);
                assert(pool.freed.contains(x));
            }
            if pool.freed.contains(x) && x != id {
                let k = choose|k: int| 0 <= k < pool.freed.len() && pool.freed[k] == x;
                assert(k != last);
                assert(after.freed[k] == x);
            }
            assert(pool.freed.contains(x) || live.contains(x) <==> (first <= x && x < pool.next_id));
        }
    } else {
        assert(!pool.freed.contains(id));
        assert(!live.contains(id));
        assert forall|x: u32| #![trigger live2.contains(x)] #![trigger after.freed.contains(x)]
            (after.freed.contains(x) || live2.contains(x)) <==> (first <= x && x < after.next_id) by {
            assert(pool.freed.contains(x) || live.contains(x) <==> (first <= x && x < pool.next_id));
        }
    }
}

/// Over any history of `get`s and of `free`s of live ids: freeing a live id leaves a pool
/// that accounts for the other live ids.
pub proof fn lemma_free_accounts_for(pool: IdPoolView, first: u32, live: Set<u32>, id: u32)
    requires
        pool.accounts_for(first, live),
        live.contains(id),
    ensures
        pool.free(id).accounts_for(first, live.remove(id)),
{
    let after = pool.free(id);
    let live2 = live.remove(id);
    assert(!pool.freed.contains(id)) by {
        if pool.freed.contains(id) {
            let k = choose|k: int| 0 <= k < pool.freed.len() && pool.freed[k] == id;
            assert(!live.contains(pool.freed[k]));
        }
    }
    assert forall|i: int, j: int| 0 <= i < j < after.freed.len() implies after.freed[i] != after.freed[j] by {
        if j == after.freed.len() - 1 {
            assert(pool.freed.contains(after.freed[i]));
        }
    }
    assert forall|i: int| 0 <= i < after.freed.len() implies !live2.contains(#[trigger] after.freed[i]) by {
        if i < pool.freed.len() {
            assert(pool.freed[i] == after.freed[i]);
        }
    }
    assert forall|x: u32| #![trigger live2.contains(x)] #![trigger after.freed.contains(x)]
        (after.freed.contains(x) || live2.contains(x)) <==> (first <= x && x < after.next_id) by {
        if after.freed.contains(x) && x != id {
            let k = choose|k: int| 0 <= k < after.freed.len() && after.freed[k] == x;
            assert(pool.freed[k] == x);
            assert(pool.freed.contains(x));
        }
        if pool.freed.contains(x) {
            let k = choose|k: int| 0 <= k < pool.freed.len() && pool.freed[k] == x;
            assert(after.freed[k] == x);
        }
        if x == id {
            assert(after.freed[after.freed.len() - 1] == id);
        }
        assert(pool.freed.contains(x) || live.contains(x) <==> (first <= x && x < pool.next_id));
    }
}

/// The pool made with first id `first` and the ids live in it after the operations `ops`,
/// in order: `None` asks for an id, `Some(id)` frees `id`.
pub open spec fn replay(first: u32, ops: Seq<Option<u32>>) -> (IdPoolView, Set<u32>)
    decreases ops.len(),
{
    if ops.len() == 0 {
        (IdPoolView { freed: Seq::<u32>::empty(), next_id: first }, Set::<u32>::empty())
    } else {
        let (pool, live) = replay(first, ops.drop_last());
        match ops.last() {
            None => (pool.get().1, live.insert(pool.get().0)),
            Some(id) => (pool.free(id), live.remove(id)),
        }
    }
}

/// Every operation of `ops` is one the pool allows at that point: an id is asked for only
/// when one can be had without overflow, and only a live id is freed.
pub open spec fn admissible(first: u32, ops: Seq<Option<u32>>) -> bool
    decreases ops.len(),
{
    if ops.len() == 0 {
        true
    } else {
        &&& admissible(first, ops.drop_last())
        &&& match ops.last() {
            None => replay(first, ops.drop_last()).0.can_get(),
            Some(id) => replay(first, ops.drop_last()).1.contains(id),
        }
    }
}

/// After any admissible history the pool accounts for its live ids: live and freed ids are
/// disjoint, no freed id repeats, and together they are exactly `first..next_id`; and an id
/// that the last operation asked for is at least `first` and was not live before.
pub proof fn lemma_history_accounts_for(first: u32, ops: Seq<Option<u32>>)
    requires
        admissible(first, ops),
    ensures
        replay(first, ops).0.accounts_for(first, replay(first, ops).1),
        ops.len() > 0 && ops.last() is None ==> ({
            let (pool, live) = replay(first, ops.drop_last());
            first <= pool.get().0 && !live.contains(pool.get().0)
        }),
    decreases ops.len(),
{
    if ops.len() == 0 {
        lemma_new_accounts_for(first);
    } else {
        lemma_history_accounts_for(first, ops.drop_last());
        let (pool, live) = replay(first, ops.drop_last());
        match ops.last() {
            None => lemma_get_accounts_for(pool, first, live),
            Some(id) => lemma_free_accounts_for(pool, first, live, id),
        }
    }
}

} // verus!
