//! The waiters of the ready-callback server: who is to be told when an
//! instance reports that it has booted.

use vstd::prelude::*;

verus! {

/// Some waiter is registered under `k`.
pub open spec fn has_key<T>(s: Seq<(String, T)>, k: Seq<char>) -> bool {
    exists|i: int| 0 <= i < s.len() && (#[trigger] s[i]).0@ == k
}

/// The waiter registered under `k`.
pub open spec fn value_of<T>(s: Seq<(String, T)>, k: Seq<char>) -> T {
    s[choose|i: int| 0 <= i < s.len() && (#[trigger] s[i]).0@ == k].1
}

/// No id is registered twice.
pub open spec fn keys_unique<T>(s: Seq<(String, T)>) -> bool {
    forall|i: int, j: int| 0 <= i < s.len() && 0 <= j < s.len() && i != j ==> (#[trigger] s[i]).0@ != (#[trigger] s[j]).0@
}

/// The waiters by instance id.
pub open spec fn as_map<T>(s: Seq<(String, T)>) -> Map<Seq<char>, T> {
    Map::new(|k: Seq<char>| has_key(s, k), |k: Seq<char>| value_of(s, k))
}

/// Waiters keyed by instance id; each id at most once.
#[derive(Debug)]
pub struct Waitlist<T> {
    waiters: Vec<(String, T)>,
}

impl<T> View for Waitlist<T> {
    type V = Map<Seq<char>, T>;

    closed spec fn view(&self) -> Map<Seq<char>, T> {
        as_map(self.waiters@)
    }
}

proof fn lemma_value_at<T>(s: Seq<(String, T)>, i: int)
    requires
        keys_unique(s),
        0 <= i < s.len(),
    ensures
        has_key(s, s[i].0@),
        value_of(s, s[i].0@) == s[i].1,
{
    assert(has_key(s, s[i].0@));
}

impl<T> Waitlist<T> {
    /// No id is registered twice.
    pub closed spec fn wf(&self) -> bool {
        keys_unique(self.waiters@)
    }

    /// No waiters.
    pub fn new() -> (w: Self)
        ensures
            w.wf(),
            w@ == Map::<Seq<char>, T>::empty(),
    {
        let w = Waitlist { waiters: Vec::new() };
        assert(w@ =~= Map::<Seq<char>, T>::empty());
        w
    }

    fn position(&self, id: &str) -> (r: Option<usize>)
        ensures
            r is None ==> !has_key(self.waiters@, id@),
            r matches Some(p) ==> p < self.waiters@.len() && self.waiters@[p as int].0@ == id@,
    {
        let key = id.to_owned();
        let mut i: usize = 0;
        while i < self.waiters.len()
            invariant
                key@ == id@,
                i <= self.waiters.len(),
                forall|j: int| 0 <= j < i ==> (#[trigger] self.waiters@[j]).0@ != id@,
            decreases self.waiters.len() - i,
        {
            if self.waiters[i].0 == key {
                return Some(i);
            }
            i += 1;
        }
        None
    }

    /// Whether a waiter is registered under `id`.
    pub fn contains(&self, id: &str) -> (b: bool)
        ensures
            b == self@.dom().contains(id@),
    {
        self.position(id).is_some()
    }

    /// Registers `waiter` under an id that has none yet.
    pub fn register(&mut self, id: &str, waiter: T)
        requires
            old(self).wf(),
            !old(self)@.dom().contains(id@),
        ensures
            final(self).wf(),
            final(self)@ == old(self)@.insert(id@, waiter),
    {
        let ghost s = self.waiters@;
        self.waiters.push((id.to_owned(), waiter));
        let ghost t = self.waiters@;
        assert(keys_unique(t));
        assert forall|k: Seq<char>| #[trigger] as_map(t).dom().contains(k) == as_map(s).insert(
            id@,
            waiter,
        ).dom().contains(k) by {
            if has_key(t, k) && k != id@ {
                let i = choose|i: int| 0 <= i < t.len() && (#[trigger] t[i]).0@ == k;
                assert(s[i].0@ == k);
            }
            if has_key(s, k) {
                let i = choose|i: int| 0 <= i < s.len() && (#[trigger] s[i]).0@ == k;
                assert(t[i].0@ == k);
            }
            if k == id@ {
                assert(t[s.len() as int].0@ == k);
            }
        }
        assert forall|k: Seq<char>| #[trigger] as_map(t).dom().contains(k) implies as_map(t)[k]
            == as_map(s).insert(id@, waiter)[k] by {
            if k == id@ {
                lemma_value_at(t, s.len() as int);
            } else {
                let i = choose|i: int| 0 <= i < t.len() && (#[trigger] t[i]).0@ == k;
                lemma_value_at(t, i);
                lemma_value_at(s, i);
            }
        }
        assert(as_map(t) =~= as_map(s).insert(id@, waiter));
    }

    /// Takes out the waiter registered under `id`, if any.
    pub fn remove(&mut self, id: &str) -> (r: Option<T>)
        requires
            old(self).wf(),
        ensures
            final(self).wf(),
            final(self)@ == old(self)@.remove(id@),
            old(self)@.dom().contains(id@) ==> r == Some(old(self)@[id@]),
            !old(self)@.dom().contains(id@) ==> r is None,
    {
        let ghost s = self.waiters@;
        match self.position(id) {
            None => {
                assert(as_map(s) =~= as_map(s).remove(id@));
                None
            },
            Some(p) => {
                let (_, w) = self.waiters.remove(p);
                let ghost t = self.waiters@;
                proof {
                    lemma_value_at(s, p as int);
                    assert(t =~= s.remove(p as int));
                    assert(keys_unique(t));
                    assert forall|k: Seq<char>| #[trigger] as_map(t).dom().contains(k)
                        == as_map(s).remove(id@).dom().contains(k) by {
                        if has_key(t, k) {
                            let i = choose|i: int| 0 <= i < t.len() && (#[trigger] t[i]).0@ == k;
                            if i < p {
                                assert(s[i].0@ == k);
                            } else {
                                assert(s[i + 1].0@ == k);
                            }
                        }
                        if has_key(s, k) && k != id@ {
                            let i = choose|i: int| 0 <= i < s.len() && (#[trigger] s[i]).0@ == k;
                            if i < p {
                                assert(t[i].0@ == k);
                            } else {
                                assert(t[i - 1].0@ == k);
                            }
                        }
                    }
                    assert forall|k: Seq<char>| #[trigger] as_map(t).dom().contains(k) implies as_map(
                        t,
                    )[k] == as_map(s).remove(id@)[k] by {
                        let i = choose|i: int| 0 <= i < t.len() && (#[trigger] t[i]).0@ == k;
                        lemma_value_at(t, i);
                        if i < p {
                            lemma_value_at(s, i);
                        } else {
                            lemma_value_at(s, i + 1);
                        }
                    }
                    assert(as_map(t) =~= as_map(s).remove(id@));
                }
                Some(w)
            },
        }
    }
}

/// What a ready notification finds is what was registered under its id,
/// and only the first one finds it: after `register(id, w)` on waiters `m`
/// without `id`, `remove(id)` gives `w` and leaves `m` as it was, so a
/// second `remove(id)` gives nothing.
pub proof fn lemma_notified_exactly_once<T>(m: Map<Seq<char>, T>, id: Seq<char>, w: T)
    requires
        !m.dom().contains(id),
    ensures
        m.insert(id, w).dom().contains(id),
        m.insert(id, w)[id] == w,
        m.insert(id, w).remove(id) == m,
        !m.insert(id, w).remove(id).dom().contains(id),
{
    assert(m.insert(id, w).remove(id) =~= m);
}

} // verus!
