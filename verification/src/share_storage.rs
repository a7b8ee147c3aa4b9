use vstd::prelude::*;

use std::collections::BTreeMap;

verus! {

broadcast use {vstd::std_specs::btree::group_btree_axioms, vstd::laws_cmp::group_laws_cmp};

/// Shares received by a party, indexed by `(protocol_id, step_id, party_id)`;
/// each entry holds the two halves of one party's share.
#[derive(Debug)]
pub struct ShareStorage {
    shares: BTreeMap<(u32, u32, u32), (u64, u64)>,
}

impl Clone for ShareStorage {
    fn clone(&self) -> (r: Self)
        ensures
            r@ == self@,
    {
        ShareStorage { shares: self.shares.clone() }
    }
}

impl View for ShareStorage {
    type V = Map<(u32, u32, u32), (u64, u64)>;

    closed spec fn view(&self) -> Map<(u32, u32, u32), (u64, u64)> {
        self.shares@
    }
}

/// Reading a slot after storing into it gives back what was stored, and storing into one
/// slot leaves every other slot as it was.
pub proof fn lemma_store_then_get(
    s: Map<(u32, u32, u32), (u64, u64)>,
    written: (u32, u32, u32),
    share: (u64, u64),
    read: (u32, u32, u32),
)
    ensures
        s.insert(written, share).contains_key(written),
        s.insert(written, share)[written] == share,
        read != written ==> (s.insert(written, share).contains_key(read) == s.contains_key(read)),
        read != written && s.contains_key(read) ==> s.insert(written, share)[read] == s[read],
{
}

/// The contents of a storage that started empty and then had each `(slot, share)` of
/// `stores` stored in turn.
pub open spec fn replay(stores: Seq<((u32, u32, u32), (u64, u64))>) -> Map<(u32, u32, u32), (u64, u64)>
    decreases stores.len(),
{
    if stores.len() == 0 {
        Map::empty()
    } else {
        replay(stores.drop_last()).insert(stores.last().0, stores.last().1)
    }
}

/// The share of the most recent store into `slot` among `stores`, or `None` if there was none.
pub open spec fn last_stored(stores: Seq<((u32, u32, u32), (u64, u64))>, slot: (u32, u32, u32)) -> Option<(u64, u64)>
    decreases stores.len(),
{
    if stores.len() == 0 {
        None
    } else if stores.last().0 == slot {
        Some(stores.last().1)
    } else {
        last_stored(stores.drop_last(), slot)
    }
}

/// What `get_share` answers for `slot` on a storage whose contents are `m`.
pub open spec fn lookup(m: Map<(u32, u32, u32), (u64, u64)>, slot: (u32, u32, u32)) -> Option<(u64, u64)> {
    if m.contains_key(slot) {
        Some(m[slot])
    } else {
        None
    }
}

/// Over any history of stores into a new storage, reading a slot gives the share of the
/// most recent store into that slot, and `None` if that slot was never stored into.
/// (`new` gives `replay` of the empty history, and `store_share` extends the history by one.)
pub proof fn lemma_read_gives_last_store(stores: Seq<((u32, u32, u32), (u64, u64))>, slot: (u32, u32, u32))
    ensures
        lookup(replay(stores), slot) == last_stored(stores, slot),
        replay(Seq::empty()) == Map::<(u32, u32, u32), (u64, u64)>::empty(),
        forall|e: ((u32, u32, u32), (u64, u64))| #[trigger] replay(stores.push(e)) == replay(stores).insert(e.0, e.1),
    decreases stores.len(),
{
    assert forall|e: ((u32, u32, u32), (u64, u64))| #[trigger] replay(stores.push(e)) == replay(stores).insert(e.0, e.1) by {
        assert(stores.push(e).drop_last() =~= stores);
    }
    if stores.len() > 0 {
        lemma_read_gives_last_store(stores.drop_last(), slot);
    }
}

impl ShareStorage {
    /// An empty storage.
    pub fn new() -> (s: Self)
        ensures
            s@ == Map::<(u32, u32, u32), (u64, u64)>::empty(),
    {
        ShareStorage { shares: BTreeMap::new() }
    }

    /// Record `share` for the slot, replacing what was there.
    pub fn store_share(&mut self, protocol_id: u32, step_id: u32, party_id: u32, share: (u64, u64))
        ensures
            final(self)@ == old(self)@.insert((protocol_id, step_id, party_id), share),
    {
        self.shares.insert((protocol_id, step_id, party_id), share);
    }

    /// The share recorded for the slot, if any.
    pub fn get_share(&self, protocol_id: u32, step_id: u32, party_id: u32) -> (r: Option<(u64, u64)>)
        ensures
            r == lookup(self@, (protocol_id, step_id, party_id)),
    {
        match self.shares.get(&(protocol_id, step_id, party_id)) {
            Some(v) => Some(*v),
            None => None,
        }
    }

    /// Every stored slot with its share, each slot once, in no particular order.
    pub fn entries(&self) -> (r: Vec<((u32, u32, u32), (u64, u64))>)
        ensures
            forall|i: int| 0 <= i < r.len() ==> #[trigger] self@.contains_key(r[i].0) && self@[r[i].0] == r[i].1,
            forall|k: (u32, u32, u32)| #[trigger] self@.contains_key(k) ==> exists|i: int| 0 <= i < r.len() && r[i].0 == k,
            forall|i: int, j: int| 0 <= i < j < r.len() ==> r[i].0 != r[j].0,
    {
        let mut r: Vec<((u32, u32, u32), (u64, u64))> = Vec::new();
        for (k, v) in it: self.shares.iter()
            invariant
                r.len() == it.index(),
                forall|i: int| 0 <= i < it.seq().len() ==> self.shares@.contains_key(*it.seq()[i].0) && self.shares@[*it.seq()[i].0] == *it.seq()[i].1,
                forall|i: int| 0 <= i < r.len() ==> r[i].0 == *it.seq()[i].0 && r[i].1 == *it.seq()[i].1,
                it.seq().no_duplicates(),
                forall|i: int, j: int| 0 <= i < j < r.len() ==> r[i].0 != r[j].0,
        {
            let ghost n = r.len() as int;
            r.push((*k, *v));
            proof {
                assert forall|i: int| 0 <= i < n implies r[i].0 != r[n].0 by {
                    if r[i].0 == r[n].0 {
                        assert(it.seq()[i] == it.seq()[n]);
                    }
                }
            }
        }
        r
    }
}

} // verus!
