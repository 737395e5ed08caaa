use vstd::prelude::*;
use crate::tower::{TowerId, TowerInfo, TowerStatus};

verus! {

/// The map that a sequence of entries describes, later entries overriding
/// earlier ones.
pub open spec fn map_of(s: Seq<(TowerId, TowerInfo)>) -> Map<Seq<u8>, TowerInfo>
    decreases s.len(),
{
    if s.len() == 0 {
        Map::empty()
    } else {
        map_of(s.drop_last()).insert(s.last().0@, s.last().1)
    }
}

/// No two entries share an identifier.
pub open spec fn keys_unique(s: Seq<(TowerId, TowerInfo)>) -> bool {
    forall|i: int, j: int| 0 <= i < s.len() && 0 <= j < s.len() && i != j ==> s[i].0@ != s[j].0@
}

/// Where a sequence of entries holds an identifier.
pub open spec fn holds_key(s: Seq<(TowerId, TowerInfo)>, k: Seq<u8>) -> bool {
    exists|i: int| 0 <= i < s.len() && s[i].0@ == k
}

pub proof fn lemma_map_of_domain(s: Seq<(TowerId, TowerInfo)>, k: Seq<u8>)
    ensures
        map_of(s).contains_key(k) <==> holds_key(s, k),
    decreases s.len(),
{
    if s.len() > 0 {
        let p = s.drop_last();
        lemma_map_of_domain(p, k);
        if holds_key(p, k) {
            let i = choose|i: int| 0 <= i < p.len() && p[i].0@ == k;
            assert(s[i].0@ == k);
        }
        if holds_key(s, k) && s.last().0@ != k {
            let i = choose|i: int| 0 <= i < s.len() && s[i].0@ == k;
            assert(p[i].0@ == k);
        }
    }
}

pub proof fn lemma_map_of_value(s: Seq<(TowerId, TowerInfo)>, i: int)
    requires
        keys_unique(s),
        0 <= i < s.len(),
    ensures
        map_of(s).contains_key(s[i].0@),
        map_of(s)[s[i].0@] == s[i].1,
    decreases s.len(),
{
    lemma_map_of_domain(s, s[i].0@);
    if i < s.len() - 1 {
        let p = s.drop_last();
        assert(p[i] == s[i]);
        lemma_map_of_value(p, i);
    }
}

pub proof fn lemma_map_of_finite(s: Seq<(TowerId, TowerInfo)>)
    requires
        keys_unique(s),
    ensures
        map_of(s).dom().finite(),
        map_of(s).dom().len() == s.len(),
    decreases s.len(),
{
    if s.len() > 0 {
        let p = s.drop_last();
        lemma_map_of_finite(p);
        lemma_map_of_domain(p, s.last().0@);
        if holds_key(p, s.last().0@) {
            let i = choose|i: int| 0 <= i < p.len() && p[i].0@ == s.last().0@;
            assert(s[i].0@ == s[s.len() - 1].0@);
        }
    }
}

/// The registry of known towers, one record per tower identifier.
pub struct TowerList {
    entries: Vec<(TowerId, TowerInfo)>,
}

impl View for TowerList {
    type V = Map<Seq<u8>, TowerInfo>;

    open spec fn view(&self) -> Map<Seq<u8>, TowerInfo> {
        map_of(self.entries())
    }
}

impl TowerList {
    pub closed spec fn wf(&self) -> bool {
        keys_unique(self.entries@)
    }

    /// The records in the order in which they are held.
    pub closed spec fn entries(&self) -> Seq<(TowerId, TowerInfo)> {
        self.entries@
    }

    /// An empty registry.
    pub fn new() -> (r: TowerList)
        ensures
            r.wf(),
            r@ == Map::<Seq<u8>, TowerInfo>::empty(),
    {
        TowerList { entries: Vec::new() }
    }

    /// The number of registered towers.
    pub fn len(&self) -> (r: usize)
        requires
            self.wf(),
        ensures
            r == self@.len(),
    {
        proof {
            lemma_map_of_finite(self.entries@);
        }
        self.entries.len()
    }

    /// Position of `id` among the entries.
    fn position(&self, id: &TowerId) -> (r: Option<usize>)
        requires
            self.wf(),
        ensures
            match r {
                Some(i) => i < self.entries@.len() && self.entries@[i as int].0@ == id@,
                None => !holds_key(self.entries@, id@),
            },
    {
        let mut i: usize = 0;
        while i < self.entries.len()
            invariant
                0 <= i <= self.entries@.len(),
                forall|j: int| 0 <= j < i ==> self.entries@[j].0@ != id@,
            decreases self.entries@.len() - i,
        {
            if self.entries[i].0.same(id) {
                return Some(i);
            }
            i = i + 1;
        }
        None
    }

    /// Whether a record for `id` is held.
    pub fn contains(&self, id: &TowerId) -> (r: bool)
        requires
            self.wf(),
        ensures
            r == self@.contains_key(id@),
    {
        proof {
            lemma_map_of_domain(self.entries@, id@);
        }
        self.position(id).is_some()
    }

    /// The record of `id`, if any.
    pub fn get(&self, id: &TowerId) -> (r: Option<TowerInfo>)
        requires
            self.wf(),
        ensures
            match r {
                Some(t) => self@.contains_key(id@) && self@[id@] == t,
                None => !self@.contains_key(id@),
            },
    {
        proof {
            lemma_map_of_domain(self.entries@, id@);
        }
        match self.position(id) {
            Some(i) => {
                proof {
                    lemma_map_of_value(self.entries@, i as int);
                }
                Some(self.entries[i].1.duplicate())
            },
            None => None,
        }
    }

    /// Inserts the record of `id`, replacing any earlier one.
    pub fn upsert(&mut self, id: TowerId, info: TowerInfo)
        requires
            old(self).wf(),
        ensures
            final(self).wf(),
            final(self)@ == old(self)@.insert(id@, info),
    {
        let ghost before = self.entries@;
        let ghost k = id@;
        match self.position(&id) {
            Some(i) => {
                self.entries.set(i, (id, info));
                proof {
                    let after = self.entries@;
                    assert forall|a: int, b: int|
                        0 <= a < after.len() && 0 <= b < after.len() && a != b implies after[a].0@
                        != after[b].0@ by {
                        assert(before[i as int].0@ == k);
                    }
                    assert forall|key: Seq<u8>|
                        #![auto]
                        map_of(after).contains_key(key) == map_of(before).insert(k, info).contains_key(key)
                        by {
                        lemma_map_of_domain(after, key);
                        lemma_map_of_domain(before, key);
                        assert(after[i as int].0@ == k);
                        if holds_key(before, key) && key != k {
                            let j = choose|j: int| 0 <= j < before.len() && before[j].0@ == key;
                            assert(after[j].0@ == key);
                        }
                        if holds_key(after, key) && key != k {
                            let j = choose|j: int| 0 <= j < after.len() && after[j].0@ == key;
                            assert(before[j].0@ == key);
                        }
                    }
                    assert forall|key: Seq<u8>|
                        #[trigger] map_of(after).contains_key(key) implies map_of(after)[key]
                        == map_of(before).insert(k, info)[key] by {
                        lemma_map_of_domain(after, key);
                        let j = choose|j: int| 0 <= j < after.len() && after[j].0@ == key;
                        lemma_map_of_value(after, j);
                        if j != i {
                            lemma_map_of_value(before, j);
                        }
                    }
                    assert(map_of(after) =~= map_of(before).insert(k, info));
                }
            },
            None => {
                self.entries.push((id, info));
                proof {
                    let after = self.entries@;
                    assert(after.drop_last() =~= before);
                    assert forall|a: int, b: int|
                        0 <= a < after.len() && 0 <= b < after.len() && a != b implies after[a].0@
                        != after[b].0@ by {
                        if a == after.len() - 1 {
                            assert(before[b].0@ == after[b].0@);
                        }
                        if b == after.len() - 1 {
                            assert(before[a].0@ == after[a].0@);
                        }
                    }
                }
            },
        }
    }

    /// Sets the status of `id`; nothing changes when the tower is unknown or
    /// already has that status. Returns whether the record changed.
    pub fn set_status(&mut self, id: &TowerId, status: TowerStatus) -> (r: bool)
        requires
            old(self).wf(),
        ensures
            final(self).wf(),
            r == (old(self)@.contains_key(id@) && old(self)@[id@].status != status),
            final(self)@ == status_set(old(self)@, id@, status),
    {
        match self.get(id) {
            Some(t) => {
                if t.status != status {
                    let mut t2 = t;
                    t2.status = status;
                    self.upsert(id.duplicate(), t2);
                    assert(final(self)@ == old(self)@.insert(id@, old(self)@[id@].with_status(status)));
                    true
                } else {
                    proof {
                        assert(old(self)@.insert(id@, old(self)@[id@].with_status(status)) =~= old(self)@);
                    }
                    false
                }
            },
            None => false,
        }
    }

    /// Records new slots for `id` and marks it reachable; nothing changes
    /// when the tower is unknown.
    pub fn set_slots(&mut self, id: &TowerId, slots: u32)
        requires
            old(self).wf(),
        ensures
            final(self).wf(),
            final(self)@ == slots_set(old(self)@, id@, slots),
    {
        match self.get(id) {
            Some(t) => {
                let mut t2 = t;
                t2.available_slots = slots;
                t2.status = TowerStatus::Reachable;
                self.upsert(id.duplicate(), t2);
                assert(t2 == old(self)@[id@].with_slots(slots));
            },
            None => {},
        }
    }

    /// Every held record, with its identifier, in the order held.
    pub fn to_vec(&self) -> (r: Vec<(TowerId, TowerInfo)>)
        requires
            self.wf(),
        ensures
            r@.len() == self@.len(),
            keys_unique(r@),
            map_of(r@) == self@,
    {
        let mut r: Vec<(TowerId, TowerInfo)> = Vec::new();
        let mut i: usize = 0;
        while i < self.entries.len()
            invariant
                0 <= i <= self.entries@.len(),
                r@.len() == i,
                forall|j: int| 0 <= j < i ==> (#[trigger] r@[j]).0@ == self.entries@[j].0@ && r@[j].1 == self.entries@[j].1,
            decreases self.entries@.len() - i,
        {
            let e = &self.entries[i];
            r.push((e.0.duplicate(), e.1.duplicate()));
            i = i + 1;
        }
        proof {
            lemma_map_of_finite(self.entries@);
            lemma_map_of_same_keys(r@, self.entries@);
        }
        r
    }

    /// A registry holding the given records.
    pub fn from_vec(entries: Vec<(TowerId, TowerInfo)>) -> (r: TowerList)
        ensures
            r.wf(),
            r@ == map_of(entries@),
    {
        let mut list = TowerList::new();
        let mut i: usize = 0;
        while i < entries.len()
            invariant
                0 <= i <= entries@.len(),
                list.wf(),
                list@ == map_of(entries@.subrange(0, i as int)),
            decreases entries@.len() - i,
        {
            let e = &entries[i];
            list.upsert(e.0.duplicate(), e.1.duplicate());
            proof {
                assert(entries@.subrange(0, i + 1).drop_last() =~= entries@.subrange(0, i as int));
            }
            i = i + 1;
        }
        assert(entries@.subrange(0, entries@.len() as int) =~= entries@);
        list
    }
}

/// The registry `m` with the status of `id` set, if `id` is registered.
pub open spec fn status_set(m: Map<Seq<u8>, TowerInfo>, id: Seq<u8>, status: TowerStatus) -> Map<
    Seq<u8>,
    TowerInfo,
> {
    if m.contains_key(id) {
        m.insert(id, m[id].with_status(status))
    } else {
        m
    }
}

/// The registry `m` with new slots for `id`, marked reachable, if `id` is
/// registered.
pub open spec fn slots_set(m: Map<Seq<u8>, TowerInfo>, id: Seq<u8>, slots: u32) -> Map<
    Seq<u8>,
    TowerInfo,
> {
    if m.contains_key(id) {
        m.insert(id, m[id].with_slots(slots))
    } else {
        m
    }
}

/// The registry `m` after upserting each record of `writes`, in order.
pub open spec fn upsert_all(m: Map<Seq<u8>, TowerInfo>, writes: Seq<(Seq<u8>, TowerInfo)>) -> Map<
    Seq<u8>,
    TowerInfo,
>
    decreases writes.len(),
{
    if writes.len() == 0 {
        m
    } else {
        upsert_all(m, writes.drop_last()).insert(writes.last().0, writes.last().1)
    }
}

/// Looking a tower up right after upserting its record gives back exactly
/// that record.
pub proof fn lemma_upsert_then_get(m: Map<Seq<u8>, TowerInfo>, id: Seq<u8>, info: TowerInfo)
    ensures
        m.insert(id, info).contains_key(id),
        m.insert(id, info)[id] == info,
{
}

/// Upserting records for N distinct towers into an empty registry leaves
/// exactly N entries, each tower keyed to its own record.
pub proof fn lemma_distinct_upserts(writes: Seq<(Seq<u8>, TowerInfo)>)
    requires
        forall|i: int, j: int|
            0 <= i < writes.len() && 0 <= j < writes.len() && i != j ==> writes[i].0 != writes[j].0,
    ensures
        upsert_all(Map::empty(), writes).dom().finite(),
        upsert_all(Map::empty(), writes).len() == writes.len(),
        forall|k: Seq<u8>|
            upsert_all(Map::empty(), writes).contains_key(k) <==> exists|i: int|
                0 <= i < writes.len() && writes[i].0 == k,
        forall|i: int|
            0 <= i < writes.len() ==> upsert_all(Map::empty(), writes)[#[trigger] writes[i].0]
                == writes[i].1,
    decreases writes.len(),
{
    if writes.len() > 0 {
        let p = writes.drop_last();
        let last = writes.last();
        lemma_distinct_upserts(p);
        let m = upsert_all(Map::empty(), p);
        if m.contains_key(last.0) {
            let i = choose|i: int| 0 <= i < p.len() && p[i].0 == last.0;
            assert(writes[i].0 == writes[writes.len() - 1].0);
        }
        assert forall|k: Seq<u8>|
            upsert_all(Map::empty(), writes).contains_key(k) implies exists|i: int|
                0 <= i < writes.len() && writes[i].0 == k by {
            if k != last.0 {
                let i = choose|i: int| 0 <= i < p.len() && p[i].0 == k;
                assert(writes[i].0 == k);
            } else {
                assert(writes[writes.len() - 1].0 == k);
            }
        }
        assert forall|k: Seq<u8>|
            (exists|i: int| 0 <= i < writes.len() && writes[i].0 == k) implies upsert_all(
            Map::empty(),
            writes,
        ).contains_key(k) by {
            let i = choose|i: int| 0 <= i < writes.len() && writes[i].0 == k;
            if i < writes.len() - 1 {
                assert(p[i].0 == k);
            }
        }
        assert forall|i: int| 0 <= i < writes.len() implies upsert_all(Map::empty(), writes)[
            #[trigger] writes[i].0] == writes[i].1 by {
            if i < writes.len() - 1 {
                assert(p[i] == writes[i]);
                assert(writes[i].0 != last.0);
            }
        }
    }
}

/// Registries that each come from the one before by upserting the next
/// record, starting empty, are the successive prefixes of `upsert_all`; when
/// the N towers written are distinct, the last holds exactly N entries, each
/// tower with its record.
pub proof fn lemma_successive_upserts(
    states: Seq<Map<Seq<u8>, TowerInfo>>,
    writes: Seq<(Seq<u8>, TowerInfo)>,
)
    requires
        states.len() == writes.len() + 1,
        states[0] == Map::<Seq<u8>, TowerInfo>::empty(),
        forall|i: int|
            0 <= i < writes.len() ==> #[trigger] states[i + 1] == states[i].insert(
                writes[i].0,
                writes[i].1,
            ),
        forall|i: int, j: int|
            0 <= i < writes.len() && 0 <= j < writes.len() && i != j ==> writes[i].0 != writes[j].0,
    ensures
        forall|i: int| 0 <= i <= writes.len() ==> #[trigger] states[i] == upsert_all(Map::empty(), writes.take(i)),
        states.last().dom().finite(),
        states.last().len() == writes.len(),
        forall|i: int| 0 <= i < writes.len() ==> states.last()[#[trigger] writes[i].0] == writes[i].1,
        forall|k: Seq<u8>|
            states.last().contains_key(k) <==> exists|i: int| 0 <= i < writes.len() && writes[i].0 == k,
{
    assert forall|i: int| 0 <= i <= writes.len() implies #[trigger] states[i] == upsert_all(Map::empty(), writes.take(i)) by {
        lemma_prefix_upserts(states, writes, i);
    }
    assert(writes.take(writes.len() as int) =~= writes);
    lemma_distinct_upserts(writes);
}

proof fn lemma_prefix_upserts(
    states: Seq<Map<Seq<u8>, TowerInfo>>,
    writes: Seq<(Seq<u8>, TowerInfo)>,
    i: int,
)
    requires
        states.len() == writes.len() + 1,
        states[0] == Map::<Seq<u8>, TowerInfo>::empty(),
        forall|i: int|
            0 <= i < writes.len() ==> #[trigger] states[i + 1] == states[i].insert(
                writes[i].0,
                writes[i].1,
            ),
        0 <= i <= writes.len(),
    ensures
        states[i] == upsert_all(Map::empty(), writes.take(i)),
    decreases i,
{
    if i > 0 {
        lemma_prefix_upserts(states, writes, i - 1);
        assert(writes.take(i).drop_last() =~= writes.take(i - 1));
        assert(states[(i - 1) + 1] == states[i - 1].insert(writes[i - 1].0, writes[i - 1].1));
    } else {
        assert(writes.take(0).len() == 0);
    }
}

proof fn lemma_map_of_same_keys(a: Seq<(TowerId, TowerInfo)>, b: Seq<(TowerId, TowerInfo)>)
    requires
        a.len() == b.len(),
        forall|j: int| 0 <= j < a.len() ==> (#[trigger] a[j]).0@ == b[j].0@ && a[j].1 == b[j].1,
    ensures
        map_of(a) == map_of(b),
        keys_unique(b) ==> keys_unique(a),
    decreases a.len(),
{
    if a.len() > 0 {
        lemma_map_of_same_keys(a.drop_last(), b.drop_last());
    }
}

} // verus!
