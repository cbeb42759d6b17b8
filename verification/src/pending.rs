//! The requests in flight: a table from request identifier to the
//! callbacks that settle the request, with at most one entry per
//! identifier.
use vstd::prelude::*;

verus! {

/// Requests awaiting their response, keyed by request identifier.
pub struct PendingRequests<C> {
    entries: Vec<(String, C)>,
}

/// How a response settles its request.
pub enum Settlement<C> {
    /// The response carries a result: resolve with these callbacks.
    Resolve(C),
    /// The response carries an error: reject with these callbacks.
    Reject(C),
}

/// Whether the entry at `i` of `entries` is keyed by `k`.
pub open spec fn keyed<C>(entries: Seq<(String, C)>, i: int, k: Seq<char>) -> bool {
    0 <= i < entries.len() && entries[i].0@ == k
}

/// No two entries share a key.
pub open spec fn distinct_keys<C>(entries: Seq<(String, C)>) -> bool {
    forall|i: int, j: int|
        0 <= i < entries.len() && 0 <= j < entries.len() && i != j ==> #[trigger] entries[i].0@
            != #[trigger] entries[j].0@
}

/// The map that a list of entries with distinct keys stands for.
pub open spec fn entries_map<C>(entries: Seq<(String, C)>) -> Map<Seq<char>, C> {
    Map::new(
        |k: Seq<char>| exists|i: int| keyed(entries, i, k),
        |k: Seq<char>| entries[choose|i: int| keyed(entries, i, k)].1,
    )
}

impl<C> View for PendingRequests<C> {
    type V = Map<Seq<char>, C>;

    closed spec fn view(&self) -> Map<Seq<char>, C> {
        entries_map(self.entries@)
    }
}

/// With distinct keys, the entry at `i` is what the map holds for its key.
pub(crate) proof fn lemma_entry_in_map<C>(entries: Seq<(String, C)>, i: int)
    requires
        distinct_keys(entries),
        0 <= i < entries.len(),
    ensures
        entries_map(entries).contains_key(entries[i].0@),
        entries_map(entries)[entries[i].0@] == entries[i].1,
{
    let k = entries[i].0@;
    assert(keyed(entries, i, k));
    let j = choose|j: int| keyed(entries, j, k);
    assert(keyed(entries, j, k));
    if j != i {
        assert(entries[i].0@ != entries[j].0@);
    }
}

/// Appending an entry with a fresh key adds it to the map.
pub(crate) proof fn lemma_push_fresh<C>(entries: Seq<(String, C)>, key: String, value: C)
    requires
        distinct_keys(entries),
        !entries_map(entries).contains_key(key@),
    ensures
        distinct_keys(entries.push((key, value))),
        entries_map(entries.push((key, value))) == entries_map(entries).insert(key@, value),
{
    let e2 = entries.push((key, value));
    assert forall|i: int, j: int|
        0 <= i < e2.len() && 0 <= j < e2.len() && i != j implies #[trigger] e2[i].0@
            != #[trigger] e2[j].0@ by {
        if i == entries.len() as int {
            if e2[j].0@ == key@ {
                assert(keyed(entries, j, key@));
            }
        } else if j == entries.len() as int {
            if e2[i].0@ == key@ {
                assert(keyed(entries, i, key@));
            }
        } else {
            assert(e2[i] == entries[i] && e2[j] == entries[j]);
        }
    }
    let m1 = entries_map(e2);
    let m2 = entries_map(entries).insert(key@, value);
    assert forall|k: Seq<char>| m1.contains_key(k) <==> m2.contains_key(k) by {
        if m2.contains_key(k) {
            if k == key@ {
                assert(keyed(e2, entries.len() as int, k));
            } else {
                let i = choose|i: int| keyed(entries, i, k);
                assert(keyed(e2, i, k));
            }
        }
        if m1.contains_key(k) {
            let i = choose|i: int| keyed(e2, i, k);
            if i < entries.len() {
                assert(keyed(entries, i, k));
            }
        }
    }
    assert forall|k: Seq<char>| m1.contains_key(k) implies m1[k] == m2[k] by {
        let i = choose|i: int| keyed(e2, i, k);
        assert(keyed(e2, i, k));
        lemma_entry_in_map(e2, i);
        if i < entries.len() {
            assert(e2[i] == entries[i]);
            lemma_entry_in_map(entries, i);
        }
    }
    assert(m1 =~= m2);
}

/// Removing the entry at `i` removes its key from the map.
pub(crate) proof fn lemma_remove_at<C>(entries: Seq<(String, C)>, i: int)
    requires
        distinct_keys(entries),
        0 <= i < entries.len(),
    ensures
        distinct_keys(entries.remove(i)),
        entries_map(entries.remove(i)) == entries_map(entries).remove(entries[i].0@),
{
    let e2 = entries.remove(i);
    let key = entries[i].0@;
    assert forall|a: int, b: int|
        0 <= a < e2.len() && 0 <= b < e2.len() && a != b implies #[trigger] e2[a].0@
            != #[trigger] e2[b].0@ by {
        let a0 = if a < i { a } else { a + 1 };
        let b0 = if b < i { b } else { b + 1 };
        assert(e2[a] == entries[a0]);
        assert(e2[b] == entries[b0]);
    }
    let m1 = entries_map(e2);
    let m2 = entries_map(entries).remove(key);
    assert forall|k: Seq<char>| m1.contains_key(k) <==> m2.contains_key(k) by {
        if m1.contains_key(k) {
            let a = choose|a: int| keyed(e2, a, k);
            let a0 = if a < i { a } else { a + 1 };
            assert(e2[a] == entries[a0]);
            assert(keyed(entries, a0, k));
            assert(k != key);
        }
        if m2.contains_key(k) {
            let a0 = choose|a: int| keyed(entries, a, k);
            assert(a0 != i);
            let a = if a0 < i { a0 } else { a0 - 1 };
            assert(e2[a] == entries[a0]);
            assert(keyed(e2, a, k));
        }
    }
    assert forall|k: Seq<char>| m1.contains_key(k) implies m1[k] == m2[k] by {
        let a = choose|a: int| keyed(e2, a, k);
        assert(keyed(e2, a, k));
        let a0 = if a < i { a } else { a + 1 };
        assert(e2[a] == entries[a0]);
        lemma_entry_in_map(e2, a);
        lemma_entry_in_map(entries, a0);
    }
    assert(m1 =~= m2);
}

pub(crate) fn same_text(a: &String, b: &String) -> (r: bool)
    ensures
        r == (a@ == b@),
{
    a.eq(b)
}

impl<C> PendingRequests<C> {
    #[verifier::type_invariant]
    closed spec fn inv(&self) -> bool {
        distinct_keys(self.entries@)
    }

    /// An empty table.
    pub fn new() -> (t: Self)
        ensures
            t@ == Map::<Seq<char>, C>::empty(),
    {
        let t = PendingRequests { entries: Vec::new() };
        assert(t@ =~= Map::<Seq<char>, C>::empty());
        t
    }

    /// The number of requests in flight.
    pub fn len(&self) -> (n: usize)
        ensures
            n == self@.len(),
    {
        proof {
            use_type_invariant(self);
            lemma_map_len(self.entries@);
        }
        self.entries.len()
    }

    /// Whether a request with identifier `id` is in flight.
    pub fn contains(&self, id: &String) -> (b: bool)
        ensures
            b == self@.contains_key(id@),
    {
        proof {
            use_type_invariant(self);
        }
        match self.position(id) {
            Some(i) => {
                proof {
                    assert(keyed(self.entries@, i as int, id@));
                }
                true
            },
            None => false,
        }
    }

    fn position(&self, id: &String) -> (r: Option<usize>)
        ensures
            r matches Some(i) ==> keyed(self.entries@, i as int, id@),
            r is None ==> !self@.contains_key(id@),
    {
        let mut i: usize = 0;
        while i < self.entries.len()
            invariant
                i <= self.entries@.len(),
                forall|j: int| 0 <= j < i ==> self.entries@[j].0@ != id@,
            decreases self.entries@.len() - i,
        {
            if same_text(&self.entries[i].0, id) {
                return Some(i);
            }
            i = i + 1;
        }
        proof {
            if self@.contains_key(id@) {
                let j = choose|j: int| keyed(self.entries@, j, id@);
                assert(keyed(self.entries@, j, id@));
            }
        }
        None
    }

    /// Records the callbacks of request `id`. A request already recorded
    /// under `id` is replaced, and its callbacks are returned.
    pub fn insert(&mut self, id: String, callbacks: C) -> (replaced: Option<C>)
        ensures
            final(self)@ == old(self)@.insert(id@, callbacks),
            replaced == if old(self)@.contains_key(id@) {
                Some(old(self)@[id@])
            } else {
                None
            },
    {
        proof {
            use_type_invariant(&*self);
        }
        let replaced = self.take(&id);
        let ghost mid = self.entries@;
        proof {
            use_type_invariant(&*self);
            lemma_push_fresh(mid, id, callbacks);
        }
        let mut entries: Vec<(String, C)> = Vec::new();
        std::mem::swap(&mut entries, &mut self.entries);
        entries.push((id, callbacks));
        self.entries = entries;
        proof {
            assert(self@ =~= old(self)@.insert(id@, callbacks));
        }
        replaced
    }

    /// Removes request `id` and returns its callbacks, if it is in flight.
    pub fn take(&mut self, id: &String) -> (r: Option<C>)
        ensures
            final(self)@ == old(self)@.remove(id@),
            r == if old(self)@.contains_key(id@) {
                Some(old(self)@[id@])
            } else {
                None
            },
    {
        proof {
            use_type_invariant(&*self);
        }
        match self.position(id) {
            Some(i) => {
                proof {
                    lemma_remove_at(self.entries@, i as int);
                    lemma_entry_in_map(self.entries@, i as int);
                }
                let mut entries: Vec<(String, C)> = Vec::new();
                std::mem::swap(&mut entries, &mut self.entries);
                let (_, c) = entries.remove(i);
                self.entries = entries;
                Some(c)
            },
            None => {
                proof {
                    assert(old(self)@.remove(id@) =~= old(self)@);
                }
                None
            },
        }
    }

    /// Settles request `id` with a response: removes it and says whether
    /// to reject (the response carries an error) or resolve it. A response
    /// for no request in flight changes nothing.
    pub fn settle(&mut self, id: &String, has_error: bool) -> (s: Option<Settlement<C>>)
        ensures
            final(self)@ == old(self)@.remove(id@),
            match s {
                Some(Settlement::Resolve(c)) => !has_error && old(self)@.contains_key(id@)
                    && c == old(self)@[id@],
                Some(Settlement::Reject(c)) => has_error && old(self)@.contains_key(id@)
                    && c == old(self)@[id@],
                None => !old(self)@.contains_key(id@),
            },
    {
        match self.take(id) {
            Some(c) => if has_error {
                Some(Settlement::Reject(c))
            } else {
                Some(Settlement::Resolve(c))
            },
            None => None,
        }
    }

    /// Removes every request in flight and returns them, each identifier
    /// with its callbacks, once each.
    pub fn drain(&mut self) -> (all: Vec<(String, C)>)
        ensures
            final(self)@ == Map::<Seq<char>, C>::empty(),
            all@.len() == old(self)@.len(),
            distinct_keys(all@),
            entries_map(all@) == old(self)@,
    {
        proof {
            use_type_invariant(&*self);
            lemma_map_len(self.entries@);
        }
        let mut all: Vec<(String, C)> = Vec::new();
        std::mem::swap(&mut all, &mut self.entries);
        proof {
            assert(self@ =~= Map::<Seq<char>, C>::empty());
        }
        all
    }
}

/// The map of entries with distinct keys has one key per entry.
proof fn lemma_map_len<C>(entries: Seq<(String, C)>)
    requires
        distinct_keys(entries),
    ensures
        entries_map(entries).len() == entries.len(),
        entries_map(entries).dom().finite(),
    decreases entries.len(),
{
    if entries.len() == 0 {
        assert(entries_map(entries) =~= Map::<Seq<char>, C>::empty());
    } else {
        let last = entries.len() - 1;
        let front = entries.drop_last();
        assert(distinct_keys(front)) by {
            assert forall|i: int, j: int|
                0 <= i < front.len() && 0 <= j < front.len() && i != j implies #[trigger] front[i].0@
                    != #[trigger] front[j].0@ by {
                assert(front[i] == entries[i] && front[j] == entries[j]);
            }
        }
        lemma_map_len(front);
        if entries_map(front).contains_key(entries[last].0@) {
            let i = choose|i: int| keyed(front, i, entries[last].0@);
            assert(front[i] == entries[i]);
        }
        lemma_push_fresh(front, entries[last].0, entries[last].1);
        assert(front.push((entries[last].0, entries[last].1)) =~= entries);
    }
}

/// A response settles exactly the request it answers: after recording
/// callbacks under `id`, settling `id` hands back those callbacks and
/// forgets the request, so that a second response for `id` settles nothing.
pub proof fn lemma_settle_after_insert<C>(before: Map<Seq<char>, C>, id: Seq<char>, callbacks: C)
    ensures
        before.insert(id, callbacks).contains_key(id),
        before.insert(id, callbacks)[id] == callbacks,
        !before.insert(id, callbacks).remove(id).contains_key(id),
        forall|other: Seq<char>|
            other != id ==> (#[trigger] before.insert(id, callbacks).remove(id).contains_key(other)
                <==> before.contains_key(other)),
{
}

} // verus!
