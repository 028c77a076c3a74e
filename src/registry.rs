//! The connection registry: live connection handles under opaque ids.
//!
//! The registry itself is a plain map; callers that share it between tasks
//! keep it behind one lock and clone a handle out before doing any I/O.
use vstd::prelude::*;
use crate::text::str_eq;

verus! {

/// The handle stored last under `id` in `entries`, if any.
pub open spec fn lookup<H>(entries: Seq<(String, H)>, id: Seq<char>) -> Option<H>
    decreases entries.len(),
{
    if entries.len() == 0 {
        None
    } else if entries.last().0@ == id {
        Some(entries.last().1)
    } else {
        lookup(entries.drop_last(), id)
    }
}

proof fn lemma_lookup_remove<H>(entries: Seq<(String, H)>, i: int, id: Seq<char>)
    requires
        0 <= i < entries.len(),
        entries[i].0@ != id,
    ensures
        lookup(entries.remove(i), id) == lookup(entries, id),
    decreases entries.len(),
{
    if i < entries.len() - 1 {
        assert(entries.remove(i).drop_last() =~= entries.drop_last().remove(i));
        assert(entries.remove(i).last() == entries.last());
        lemma_lookup_remove(entries.drop_last(), i, id);
    } else {
        assert(entries.remove(i) =~= entries.drop_last());
    }
}

proof fn lemma_lookup_absent<H>(entries: Seq<(String, H)>, id: Seq<char>)
    requires
        forall|j: int| 0 <= j < entries.len() ==> entries[j].0@ != id,
    ensures
        lookup(entries, id) is None,
    decreases entries.len(),
{
    if entries.len() > 0 {
        lemma_lookup_absent(entries.drop_last(), id);
    }
}

/// Live connection handles, each under the id it was registered with.
pub struct ConnectionRegistry<H> {
    entries: Vec<(String, H)>,
}

impl<H> View for ConnectionRegistry<H> {
    type V = Map<Seq<char>, H>;

    closed spec fn view(&self) -> Map<Seq<char>, H> {
        Map::new(
            |id: Seq<char>| lookup(self.entries@, id) is Some,
            |id: Seq<char>| lookup(self.entries@, id)->0,
        )
    }
}

impl<H> ConnectionRegistry<H> {
    /// An empty registry.
    pub fn new() -> (r: Self)
        ensures
            r@ == Map::<Seq<char>, H>::empty(),
    {
        let r = ConnectionRegistry { entries: Vec::new() };
        assert(r@ =~= Map::<Seq<char>, H>::empty());
        r
    }

    /// The handle registered under `id`, if any.
    pub fn get(&self, id: &str) -> (r: Option<&H>)
        ensures
            match r {
                Some(h) => self@.contains_key(id@) && self@[id@] == *h,
                None => !self@.contains_key(id@),
            },
    {
        let mut i = self.entries.len();
        assert(self.entries@.subrange(0, i as int) =~= self.entries@);
        while i > 0
            invariant
                i <= self.entries@.len(),
                lookup(self.entries@, id@) == lookup(self.entries@.subrange(0, i as int), id@),
            decreases i,
        {
            assert(self.entries@.subrange(0, i - 1) =~= self.entries@.subrange(0, i as int).drop_last());
            i = i - 1;
            if str_eq(self.entries[i].0.as_str(), id) {
                return Some(&self.entries[i].1);
            }
        }
        None
    }

    /// Drops the handle registered under `id`; an unknown id is no error.
    pub fn remove(&mut self, id: &str)
        ensures
            final(self)@ == old(self)@.remove(id@),
    {
        let ghost start = self.entries@;
        let mut i: usize = 0;
        while i < self.entries.len()
            invariant
                i <= self.entries@.len(),
                forall|k: Seq<char>| k != id@ ==> lookup(self.entries@, k) == lookup(start, k),
                forall|j: int| 0 <= j < i ==> self.entries@[j].0@ != id@,
            decreases self.entries@.len() - i,
        {
            if str_eq(self.entries[i].0.as_str(), id) {
                let ghost before = self.entries@;
                let _ = self.entries.remove(i);
                proof {
                    assert forall|k: Seq<char>| k != id@ implies lookup(self.entries@, k) == lookup(
                        start,
                        k,
                    ) by {
                        lemma_lookup_remove(before, i as int, k);
                    }
                }
            } else {
                i = i + 1;
            }
        }
        proof {
            lemma_lookup_absent(self.entries@, id@);
        }
        assert(self@ =~= old(self)@.remove(id@));
    }

    /// Registers `handle` under `id`, replacing any handle already there.
    pub fn insert(&mut self, id: String, handle: H)
        ensures
            final(self)@ == old(self)@.insert(id@, handle),
    {
        self.remove(id.as_str());
        let ghost mid = self@;
        let ghost before = self.entries@;
        let ghost key = id@;
        let ghost entry = (id, handle);
        self.entries.push((id, handle));
        assert(self.entries@.drop_last() =~= before);
        assert(self.entries@.last() == entry);
        assert(self@ =~= mid.insert(key, handle));
    }
}

/// Handles registered under two distinct ids stay apart: after inserting
/// `ha` under `a` and then `hb` under `b`, looking up `a` gives `ha` and
/// looking up `b` gives `hb`.
pub proof fn lemma_distinct_ids_keep_their_handles<H>(
    m: Map<Seq<char>, H>,
    a: Seq<char>,
    ha: H,
    b: Seq<char>,
    hb: H,
)
    requires
        a != b,
    ensures
        m.insert(a, ha).insert(b, hb).contains_key(a),
        m.insert(a, ha).insert(b, hb)[a] == ha,
        m.insert(a, ha).insert(b, hb).contains_key(b),
        m.insert(a, ha).insert(b, hb)[b] == hb,
{
}

/// Removing an id that was never registered changes nothing.
pub proof fn lemma_remove_unknown_id<H>(m: Map<Seq<char>, H>, id: Seq<char>)
    requires
        !m.contains_key(id),
    ensures
        m.remove(id) == m,
{
    assert(m.remove(id) =~= m);
}

} // verus!
