//! Event subscriptions: for each event name, the handlers subscribed to
//! it, in the order of subscription.
use crate::pending::{
    distinct_keys, entries_map, keyed, lemma_entry_in_map, lemma_push_fresh, lemma_remove_at,
    same_text,
};
use vstd::prelude::*;

verus! {

/// Handlers subscribed to named events.
pub struct HandlerRegistry<H> {
    entries: Vec<(String, Vec<H>)>,
}

impl<H> View for HandlerRegistry<H> {
    type V = Map<Seq<char>, Seq<H>>;

    closed spec fn view(&self) -> Map<Seq<char>, Seq<H>> {
        entries_map(self.entries@).map_values(|v: Vec<H>| v@)
    }
}

/// The items of `s` that `picked` does not pick, in order.
pub open spec fn unpicked<H>(s: Seq<H>, picked: Seq<bool>) -> Seq<H>
    decreases s.len(),
{
    if s.len() == 0 {
        Seq::empty()
    } else if picked[s.len() - 1] {
        unpicked(s.drop_last(), picked)
    } else {
        unpicked(s.drop_last(), picked).push(s.last())
    }
}

/// `picked[i]` is an answer that `is_target` gave for `s[i]`, for each `i`.
pub open spec fn answers<H, F: Fn(&H) -> bool>(is_target: F, s: Seq<H>, picked: Seq<bool>) -> bool {
    &&& picked.len() == s.len()
    &&& forall|i: int| 0 <= i < s.len() ==> call_ensures(is_target, (&s[i],), #[trigger] picked[i])
}

/// Only the first `s.len()` answers matter.
proof fn lemma_unpicked_prefix<H>(s: Seq<H>, picked: Seq<bool>, more: Seq<bool>)
    requires
        picked.len() >= s.len(),
        more.len() >= s.len(),
        forall|i: int| 0 <= i < s.len() ==> picked[i] == more[i],
    ensures
        unpicked(s, picked) == unpicked(s, more),
    decreases s.len(),
{
    if s.len() > 0 {
        lemma_unpicked_prefix(s.drop_last(), picked, more);
    }
}

impl<H> HandlerRegistry<H> {
    #[verifier::type_invariant]
    closed spec fn inv(&self) -> bool {
        distinct_keys(self.entries@)
    }

    /// No event has a handler.
    pub fn new() -> (r: Self)
        ensures
            r@ == Map::<Seq<char>, Seq<H>>::empty(),
    {
        let r = HandlerRegistry { entries: Vec::new() };
        assert(r@ =~= Map::<Seq<char>, Seq<H>>::empty());
        r
    }

    fn position(&self, event: &String) -> (r: Option<usize>)
        ensures
            r matches Some(i) ==> keyed(self.entries@, i as int, event@),
            r is None ==> !self@.contains_key(event@),
    {
        let mut i: usize = 0;
        while i < self.entries.len()
            invariant
                i <= self.entries@.len(),
                forall|j: int| 0 <= j < i ==> self.entries@[j].0@ != event@,
            decreases self.entries@.len() - i,
        {
            if same_text(&self.entries[i].0, event) {
                return Some(i);
            }
            i = i + 1;
        }
        proof {
            if self@.contains_key(event@) {
                let j = choose|j: int| keyed(self.entries@, j, event@);
                assert(keyed(self.entries@, j, event@));
            }
        }
        None
    }

    /// Takes the handler list of `event` out of the registry.
    fn take_list(&mut self, event: &String) -> (r: Vec<H>)
        ensures
            final(self)@ == old(self)@.remove(event@),
            r@ == if old(self)@.contains_key(event@) {
                old(self)@[event@]
            } else {
                Seq::<H>::empty()
            },
    {
        proof {
            use_type_invariant(&*self);
        }
        match self.position(event) {
            Some(i) => {
                proof {
                    lemma_remove_at(self.entries@, i as int);
                    lemma_entry_in_map(self.entries@, i as int);
                }
                let mut entries: Vec<(String, Vec<H>)> = Vec::new();
                std::mem::swap(&mut entries, &mut self.entries);
                let (_, list) = entries.remove(i);
                self.entries = entries;
                proof {
                    assert(self@ =~= old(self)@.remove(event@));
                }
                list
            },
            None => {
                proof {
                    assert(old(self)@.remove(event@) =~= old(self)@);
                }
                Vec::new()
            },
        }
    }

    /// Puts a handler list under an event that has none.
    fn put_list(&mut self, event: String, list: Vec<H>)
        requires
            !old(self)@.contains_key(event@),
        ensures
            final(self)@ == old(self)@.insert(event@, list@),
    {
        proof {
            use_type_invariant(&*self);
            lemma_push_fresh(self.entries@, event, list);
        }
        let mut entries: Vec<(String, Vec<H>)> = Vec::new();
        std::mem::swap(&mut entries, &mut self.entries);
        entries.push((event, list));
        self.entries = entries;
        proof {
            assert(self@ =~= old(self)@.insert(event@, list@));
        }
    }

    /// Subscribes `handler` to `event`, after the handlers it already has.
    pub fn on(&mut self, event: String, handler: H)
        ensures
            final(self)@ == old(self)@.insert(
                event@,
                if old(self)@.contains_key(event@) {
                    old(self)@[event@]
                } else {
                    Seq::<H>::empty()
                }.push(handler),
            ),
    {
        let mut list = self.take_list(&event);
        list.push(handler);
        self.put_list(event, list);
        proof {
            assert(final(self)@ =~= old(self)@.insert(
                event@,
                if old(self)@.contains_key(event@) {
                    old(self)@[event@]
                } else {
                    Seq::<H>::empty()
                }.push(handler),
            ));
        }
    }

    /// Unsubscribes from `event` every handler for which `is_target`
    /// answers `true`, keeping the others in order. An event with no
    /// subscription is left alone; one whose handlers all go keeps an empty
    /// list.
    pub fn off<F: Fn(&H) -> bool>(&mut self, event: &String, is_target: F)
        requires
            forall|h: &H| is_target.requires((h,)),
        ensures
            !old(self)@.contains_key(event@) ==> final(self)@ == old(self)@,
            old(self)@.contains_key(event@) ==> exists|picked: Seq<bool>|
                answers(is_target, old(self)@[event@], picked) && final(self)@ == old(self)@.insert(
                    event@,
                    unpicked(old(self)@[event@], picked),
                ),
    {
        proof {
            use_type_invariant(&*self);
        }
        match self.position(event) {
            None => {},
            Some(_) => {
                let mut list = self.take_list(event);
                let ghost all = list@;
                let total = list.len();
                assert(all.len() == total);
                let ghost mut picked: Seq<bool> = Seq::empty();
                let mut kept: Vec<H> = Vec::new();
                let mut done: usize = 0;
                while list.len() > 0
                    invariant
                        forall|h: &H| is_target.requires((h,)),
                        done <= all.len(),
                        all.len() <= usize::MAX,
                        list@ == all.skip(done as int),
                        answers(is_target, all.take(done as int), picked),
                        kept@ == unpicked(all.take(done as int), picked),
                    decreases list@.len(),
                {
                    let h = list.remove(0);
                    let target = is_target(&h);
                    proof {
                        assert(h == all[done as int]);
                        let before = all.take(done as int);
                        let after = all.take(done as int + 1);
                        assert(after.drop_last() =~= before);
                        assert(after.last() == h);
                        lemma_unpicked_prefix(before, picked, picked.push(target));
                        picked = picked.push(target);
                        assert(list@ =~= all.skip(done as int + 1));
                    }
                    if !target {
                        kept.push(h);
                    }
                    done = done + 1;
                }
                proof {
                    assert(all.take(done as int) =~= all);
                }
                self.put_list(event.clone(), kept);
            },
        }
    }

    /// The handlers subscribed to `event`, if it has a subscription.
    pub fn listeners(&self, event: &String) -> (r: Option<&Vec<H>>)
        ensures
            match r {
                Some(list) => self@.contains_key(event@) && list@ == self@[event@],
                None => !self@.contains_key(event@),
            },
    {
        proof {
            use_type_invariant(self);
        }
        match self.position(event) {
            Some(i) => {
                proof {
                    lemma_entry_in_map(self.entries@, i as int);
                }
                Some(&self.entries[i].1)
            },
            None => None,
        }
    }
}

/// A handler that the predicate picks is no longer subscribed: subscribing
/// `h` and then unsubscribing with answers that pick `h` and nothing else
/// gives back the handlers as they were.
pub proof fn lemma_off_undoes_on<H>(s: Seq<H>, h: H, picked: Seq<bool>)
    requires
        picked.len() == s.len() + 1,
        forall|i: int| 0 <= i < s.len() ==> !picked[i],
        picked[s.len() as int],
    ensures
        unpicked(s.push(h), picked) == s,
{
    assert(s.push(h).drop_last() =~= s);
    lemma_unpicked_none(s, picked);
}

/// When nothing is picked, nothing is removed.
pub proof fn lemma_unpicked_none<H>(s: Seq<H>, picked: Seq<bool>)
    requires
        picked.len() >= s.len(),
        forall|i: int| 0 <= i < s.len() ==> !picked[i],
    ensures
        unpicked(s, picked) == s,
    decreases s.len(),
{
    if s.len() > 0 {
        lemma_unpicked_none(s.drop_last(), picked);
        assert(s.drop_last().push(s.last()) =~= s);
    }
}

} // verus!
