//! The client's pending-call table: the authoritative set of outstanding
//! request ids. Ids are unique while present; an entry lives from the
//! moment a call is issued until its response arrives, the call times out
//! or is cancelled, or the connection closes.
//!
//! The id allocator hands out ids monotonically with wrap-around at the
//! end of the 64-bit space, skipping ids that are still pending.
use vstd::prelude::*;

use vstd::set_lib::lemma_len_subset;

verus! {

/// The outstanding request ids, in order of issue.
#[derive(Debug)]
pub struct PendingTable {
    ids: Vec<u64>,
}

impl View for PendingTable {
    type V = Seq<u64>;

    closed spec fn view(&self) -> Seq<u64> {
        self.ids@
    }
}

impl PendingTable {
    /// At most one entry exists per id at any instant.
    pub open spec fn wf(self) -> bool {
        self@.no_duplicates()
    }

    /// True while `id` has an outstanding entry.
    pub open spec fn has(self, id: u64) -> bool {
        self@.contains(id)
    }

    /// The number of outstanding calls.
    pub open spec fn count(self) -> nat {
        self@.len()
    }

    /// An empty table.
    pub fn new() -> (r: Self)
        ensures
            r@ == Seq::<u64>::empty(),
            r.wf(),
    {
        PendingTable { ids: Vec::new() }
    }

    /// The number of outstanding calls.
    pub fn len(&self) -> (n: usize)
        ensures
            n == self.count(),
    {
        self.ids.len()
    }

    /// Whether `id` has an outstanding entry.
    pub fn contains(&self, id: u64) -> (r: bool)
        ensures
            r == self.has(id),
    {
        let mut i: usize = 0;
        while i < self.ids.len()
            invariant
                i <= self.ids.len(),
                forall|k: int| 0 <= k < i ==> self.ids@[k] != id,
            decreases self.ids.len() - i,
        {
            if self.ids[i] == id {
                return true;
            }
            i = i + 1;
        }
        false
    }

    /// Registers a fresh id.
    pub fn insert(&mut self, id: u64)
        requires
            old(self).wf(),
            !old(self).has(id),
        ensures
            final(self).wf(),
            final(self)@ == old(self)@.push(id),
            final(self).has(id),
            forall|x: u64| #[trigger] final(self).has(x) <==> old(self).has(x) || x == id,
    {
        self.ids.push(id);
        proof {
            assert(self@.drop_last() =~= old(self)@);
            assert(self@.last() == id);
            assert forall|x: u64| #[trigger]
                self@.contains(x) <==> old(self)@.contains(x) || x == id by {
                if self@.contains(x) {
                    let k = choose|k: int| 0 <= k < self@.len() && self@[k] == x;
                    if k < old(self)@.len() {
                        assert(old(self)@[k] == x);
                    }
                }
                if old(self)@.contains(x) {
                    let k = choose|k: int| 0 <= k < old(self)@.len() && old(self)@[k] == x;
                    assert(self@[k] == x);
                }
                if x == id {
                    assert(self@[self@.len() - 1] == x);
                }
            }
        }
    }

    /// Removes the entry of `id`, reporting whether one existed. The entry
    /// is removed exactly once: afterwards the id is no longer pending,
    /// and no other entry is touched.
    pub fn remove(&mut self, id: u64) -> (was: bool)
        requires
            old(self).wf(),
        ensures
            final(self).wf(),
            was == old(self).has(id),
            !final(self).has(id),
            forall|x: u64|
                x != id ==> (#[trigger] final(self).has(x) <==> old(self).has(x)),
            was ==> final(self).count() == old(self).count() - 1,
            !was ==> *final(self) == *old(self),
    {
        let mut i: usize = 0;
        while i < self.ids.len()
            invariant
                *self == *old(self),
                old(self).wf(),
                i <= self.ids.len(),
                forall|k: int| 0 <= k < i ==> self.ids@[k] != id,
            decreases self.ids.len() - i,
        {
            if self.ids[i] == id {
                self.ids.remove(i);
                proof {
                    let pre = old(self)@;
                    let post = self@;
                    assert(post =~= pre.subrange(0, i as int) + pre.subrange(
                        i as int + 1,
                        pre.len() as int,
                    ));
                    assert(pre[i as int] == id);
                    assert(pre.contains(id));
                    assert forall|k: int| 0 <= k < post.len() implies post[k] != id by {
                        if k < i {
                            assert(post[k] == pre[k]);
                        } else {
                            assert(post[k] == pre[k + 1]);
                        }
                    }
                    assert(!post.contains(id));
                    assert(post.no_duplicates()) by {
                        assert forall|a: int, b: int|
                            0 <= a < b < post.len() implies post[a] != post[b] by {
                            let pa: int = if a < i { a } else { a + 1 };
                            let pb: int = if b < i { b } else { b + 1 };
                            assert(post[a] == pre[pa]);
                            assert(post[b] == pre[pb]);
                        }
                    }
                    assert forall|x: u64|
                        x != id implies (#[trigger] post.contains(x) <==> pre.contains(x)) by {
                        if post.contains(x) {
                            let k = choose|k: int| 0 <= k < post.len() && post[k] == x;
                            if k < i {
                                assert(pre[k] == x);
                            } else {
                                assert(pre[k + 1] == x);
                            }
                        }
                        if pre.contains(x) {
                            let k = choose|k: int| 0 <= k < pre.len() && pre[k] == x;
                            if k < i {
                                assert(post[k] == x);
                            } else {
                                assert(k != i);
                                assert(post[k - 1] == x);
                            }
                        }
                    }
                }
                return true;
            }
            i = i + 1;
        }
        false
    }

    /// Empties the table, returning every outstanding id so that each of
    /// those calls can be failed.
    pub fn drain(&mut self) -> (ids: Vec<u64>)
        ensures
            ids@ == old(self)@,
            final(self)@ == Seq::<u64>::empty(),
            final(self).wf(),
    {
        let mut out: Vec<u64> = Vec::new();
        core::mem::swap(&mut out, &mut self.ids);
        out
    }
}

/// Adding `k` to an id, wrapping at the end of the 64-bit space.
pub open spec fn wrap_add(a: u64, k: u64) -> u64 {
    if a + k <= u64::MAX {
        (a + k) as u64
    } else {
        (a + k - 0x1_0000_0000_0000_0000) as u64
    }
}

/// Computes [`wrap_add`].
pub fn wrap_add_exec(a: u64, k: u64) -> (r: u64)
    ensures
        r == wrap_add(a, k),
{
    if k <= u64::MAX - a {
        a + k
    } else {
        k - (u64::MAX - a) - 1
    }
}

/// Distinct offsets give distinct wrapped ids.
proof fn lemma_wrap_add_injective(n: u64, a: u64, b: u64)
    requires
        a < b,
    ensures
        wrap_add(n, a) != wrap_add(n, b),
{
}

/// The set of the first `k` ids of the wrap-around window at `n`.
pub open spec fn id_window(n: u64, k: u64) -> Set<u64> {
    Set::new(|x: u64| exists|m: u64| m < k && x == wrap_add(n, m))
}

/// The window of `k` ids holds exactly `k` ids.
proof fn lemma_id_window_card(n: u64, k: u64)
    ensures
        id_window(n, k).finite(),
        id_window(n, k).len() == k,
    decreases k,
{
    if k == 0 {
        assert(id_window(n, 0) =~= Set::<u64>::empty());
    } else {
        lemma_id_window_card(n, (k - 1) as u64);
        let prev = id_window(n, (k - 1) as u64);
        let last = wrap_add(n, (k - 1) as u64);
        assert(id_window(n, k) =~= prev.insert(last)) by {
            assert forall|x: u64| id_window(n, k).contains(x) implies prev.insert(last).contains(
                x,
            ) by {
                let m = choose|m: u64| m < k && x == wrap_add(n, m);
                if m < (k - 1) as u64 {
                    assert(prev.contains(x));
                }
            }
            assert forall|x: u64| prev.insert(last).contains(x) implies id_window(n, k).contains(
                x,
            ) by {
                if prev.contains(x) {
                    let m = choose|m: u64| m < (k - 1) as u64 && x == wrap_add(n, m);
                    assert(m < k && x == wrap_add(n, m));
                } else {
                    assert(x == wrap_add(n, (k - 1) as u64));
                }
            }
        }
        assert(!prev.contains(last)) by {
            if prev.contains(last) {
                let m = choose|m: u64| m < (k - 1) as u64 && last == wrap_add(n, m);
                lemma_wrap_add_injective(n, m, (k - 1) as u64);
            }
        }
    }
}

/// The first id of the wrap-around window at `start` that is not pending.
/// The allocator walks the window in order, so after the end of the id
/// space it returns to zero and skips any still-pending ids.
pub fn next_free_id(pending: &PendingTable, start: u64) -> (id: u64)
    requires
        pending.wf(),
        pending.count() < u64::MAX,
    ensures
        !pending.has(id),
        exists|k: u64|
            id == wrap_add(start, k) && (forall|m: u64|
                m < k ==> pending.has(#[trigger] wrap_add(start, m))),
{
    let mut k: u64 = 0;
    loop
        invariant
            pending.wf(),
            pending.count() < u64::MAX,
            k <= pending.count(),
            forall|m: u64| m < k ==> pending.has(#[trigger] wrap_add(start, m)),
        decreases pending.count() - k,
    {
        let candidate = wrap_add_exec(start, k);
        if !pending.contains(candidate) {
            proof {
                assert(candidate == wrap_add(start, k) && (forall|m: u64|
                    m < k ==> pending.has(#[trigger] wrap_add(start, m))));
            }
            return candidate;
        }
        proof {
            lemma_id_window_card(start, (k + 1) as u64);
            assert(id_window(start, (k + 1) as u64).subset_of(pending@.to_set())) by {
                assert forall|x: u64|
                    id_window(start, (k + 1) as u64).contains(x) implies pending@.to_set()
                    .contains(x) by {
                    let m = choose|m: u64| m < k + 1 && x == wrap_add(start, m);
                    assert(pending.has(wrap_add(start, m)));
                }
            }
            pending@.unique_seq_to_set();
            lemma_len_subset(id_window(start, (k + 1) as u64), pending@.to_set());
        }
        k = k + 1;
    }
}

} // verus!
