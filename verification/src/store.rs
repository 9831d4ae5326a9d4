use vstd::prelude::*;

use crate::errors::QueueError;

verus! {

/// Whether two byte strings hold the same bytes.
pub fn bytes_eq(a: &Vec<u8>, b: &Vec<u8>) -> (r: bool)
    ensures
        r == (a@ == b@),
{
    if a.len() != b.len() {
        return false;
    }
    let mut i: usize = 0;
    while i < a.len()
        invariant
            i <= a.len(),
            a@.len() == b@.len(),
            forall|j: int| 0 <= j < i ==> a@[j] == b@[j],
        decreases a.len() - i,
    {
        if a[i] != b[i] {
            return false;
        }
        i = i + 1;
    }
    proof {
        assert(a@ =~= b@);
    }
    true
}

/// The four ordered sequences a queue keeps in the store.
#[derive(Clone, Copy, Debug, PartialEq, Eq, Structural)]
pub enum ListKind {
    Waiting,
    Processing,
    Succeeded,
    Failed,
}

/// The mathematical value of a store: the four job lists, the keyed record
/// entries, and whether the store is reachable at all.
pub struct StoreModel {
    pub waiting: Seq<Seq<u8>>,
    pub processing: Seq<Seq<u8>>,
    pub succeeded: Seq<Seq<u8>>,
    pub failed: Seq<Seq<u8>>,
    pub records: Map<Seq<char>, Seq<u8>>,
    pub available: bool,
}

pub open spec fn list_get(m: StoreModel, k: ListKind) -> Seq<Seq<u8>> {
    match k {
        ListKind::Waiting => m.waiting,
        ListKind::Processing => m.processing,
        ListKind::Succeeded => m.succeeded,
        ListKind::Failed => m.failed,
    }
}

pub open spec fn list_set(m: StoreModel, k: ListKind, s: Seq<Seq<u8>>) -> StoreModel {
    match k {
        ListKind::Waiting => StoreModel { waiting: s, ..m },
        ListKind::Processing => StoreModel { processing: s, ..m },
        ListKind::Succeeded => StoreModel { succeeded: s, ..m },
        ListKind::Failed => StoreModel { failed: s, ..m },
    }
}

/// Index of the first occurrence of `v` in `s`, or -1 when absent.
pub open spec fn first_index_of(s: Seq<Seq<u8>>, v: Seq<u8>) -> int
    decreases s.len(),
{
    if s.len() == 0 {
        -1
    } else if s[0] == v {
        0
    } else {
        let r = first_index_of(s.drop_first(), v);
        if r == -1 {
            -1
        } else {
            r + 1
        }
    }
}

pub proof fn lemma_first_index_of_found(s: Seq<Seq<u8>>, v: Seq<u8>, i: int)
    requires
        0 <= i < s.len(),
        s[i] == v,
        forall|j: int| 0 <= j < i ==> s[j] != v,
    ensures
        first_index_of(s, v) == i,
    decreases s.len(),
{
    if i > 0 {
        lemma_first_index_of_found(s.drop_first(), v, i - 1);
    }
}

pub proof fn lemma_first_index_of_absent(s: Seq<Seq<u8>>, v: Seq<u8>)
    requires
        forall|j: int| 0 <= j < s.len() ==> s[j] != v,
    ensures
        first_index_of(s, v) == -1,
    decreases s.len(),
{
    if s.len() > 0 {
        lemma_first_index_of_absent(s.drop_first(), v);
    }
}

pub proof fn lemma_first_index_of_in_range(s: Seq<Seq<u8>>, v: Seq<u8>)
    ensures
        first_index_of(s, v) == -1 || (0 <= first_index_of(s, v) < s.len() && s[first_index_of(
            s,
            v,
        )] == v),
    decreases s.len(),
{
    if s.len() > 0 && s[0] != v {
        lemma_first_index_of_in_range(s.drop_first(), v);
    }
}

pub proof fn lemma_first_index_of_present(s: Seq<Seq<u8>>, v: Seq<u8>)
    requires
        exists|j: int| 0 <= j < s.len() && s[j] == v,
    ensures
        0 <= first_index_of(s, v) < s.len(),
        s[first_index_of(s, v)] == v,
    decreases s.len(),
{
    if s[0] != v {
        let j = choose|j: int| 0 <= j < s.len() && s[j] == v;
        assert(s.drop_first()[j - 1] == v);
        lemma_first_index_of_present(s.drop_first(), v);
    }
}

/// The map denoted by an association list, later entries winning.
pub open spec fn kv_view(s: Seq<(String, Vec<u8>)>) -> Map<Seq<char>, Seq<u8>>
    decreases s.len(),
{
    if s.len() == 0 {
        Map::empty()
    } else {
        kv_view(s.drop_last()).insert(s.last().0@, s.last().1@)
    }
}

/// The byte strings held by a list, in order.
pub open spec fn views(l: Vec<Vec<u8>>) -> Seq<Seq<u8>> {
    l@.map_values(|x: Vec<u8>| x@)
}

fn push_back(l: &mut Vec<Vec<u8>>, v: Vec<u8>)
    ensures
        views(*final(l)) == views(*old(l)).push(v@),
{
    l.push(v);
    proof {
        assert(views(*l) =~= views(*old(l)).push(v@));
    }
}

fn push_front(l: &mut Vec<Vec<u8>>, v: Vec<u8>)
    ensures
        views(*final(l)) == seq![v@] + views(*old(l)),
{
    l.insert(0, v);
    proof {
        assert(views(*l) =~= seq![v@] + views(*old(l)));
    }
}

fn pop_front(l: &mut Vec<Vec<u8>>) -> (r: Option<Vec<u8>>)
    ensures
        views(*old(l)).len() == 0 ==> r is None && *final(l) == *old(l),
        views(*old(l)).len() > 0 ==> {
            &&& r matches Some(v) && v@ == views(*old(l))[0]
            &&& views(*final(l)) == views(*old(l)).drop_first()
        },
{
    if l.len() == 0 {
        return None;
    }
    let v = l.remove(0);
    proof {
        assert(views(*l) =~= views(*old(l)).drop_first());
    }
    Some(v)
}

fn remove_first_match(l: &mut Vec<Vec<u8>>, v: &Vec<u8>) -> (r: bool)
    ensures
        first_index_of(views(*old(l)), v@) == -1 ==> r == false && *final(l) == *old(l),
        first_index_of(views(*old(l)), v@) >= 0 ==> r == true && views(*final(l)) == views(
            *old(l),
        ).remove(first_index_of(views(*old(l)), v@)),
{
    let ghost s = views(*l);
    let mut i: usize = 0;
    while i < l.len()
        invariant
            i <= l.len(),
            *l == *old(l),
            s == views(*l),
            forall|j: int| 0 <= j < i ==> s[j] != v@,
        decreases l.len() - i,
    {
        proof {
            assert(l@[i as int]@ == s[i as int]);
        }
        if bytes_eq(&l[i], v) {
            proof {
                lemma_first_index_of_found(s, v@, i as int);
            }
            l.remove(i);
            proof {
                assert(views(*l) =~= s.remove(i as int));
            }
            return true;
        }
        i = i + 1;
    }
    proof {
        lemma_first_index_of_absent(s, v@);
    }
    false
}

spec fn kv_unique(s: Seq<(String, Vec<u8>)>) -> bool {
    forall|i: int, j: int| 0 <= i < j < s.len() ==> s[i].0@ != s[j].0@
}

proof fn lemma_kv_view_absent(s: Seq<(String, Vec<u8>)>, k: Seq<char>)
    requires
        forall|i: int| 0 <= i < s.len() ==> s[i].0@ != k,
    ensures
        !kv_view(s).contains_key(k),
    decreases s.len(),
{
    if s.len() > 0 {
        assert(forall|i: int| 0 <= i < s.drop_last().len() ==> s.drop_last()[i].0@ != k);
        lemma_kv_view_absent(s.drop_last(), k);
    }
}

proof fn lemma_kv_view_index(s: Seq<(String, Vec<u8>)>, i: int)
    requires
        kv_unique(s),
        0 <= i < s.len(),
    ensures
        kv_view(s).contains_key(s[i].0@),
        kv_view(s)[s[i].0@] == s[i].1@,
    decreases s.len(),
{
    if i < s.len() - 1 {
        assert(kv_unique(s.drop_last()));
        lemma_kv_view_index(s.drop_last(), i);
        assert(s[i].0@ != s.last().0@);
    }
}

proof fn lemma_kv_view_update(s: Seq<(String, Vec<u8>)>, i: int, e: (String, Vec<u8>))
    requires
        kv_unique(s),
        0 <= i < s.len(),
        e.0@ == s[i].0@,
    ensures
        kv_view(s.update(i, e)) == kv_view(s).insert(e.0@, e.1@),
    decreases s.len(),
{
    let t = s.update(i, e);
    if i == s.len() - 1 {
        assert(t.drop_last() =~= s.drop_last());
        assert(kv_view(t) == kv_view(s.drop_last()).insert(e.0@, e.1@));
        assert(kv_view(s).insert(e.0@, e.1@) =~= kv_view(s.drop_last()).insert(e.0@, e.1@));
    } else {
        assert(t.drop_last() =~= s.drop_last().update(i, e));
        assert(kv_unique(s.drop_last()));
        lemma_kv_view_update(s.drop_last(), i, e);
        assert(t.last() == s.last());
        assert(kv_view(t) == kv_view(s.drop_last()).insert(e.0@, e.1@).insert(
            s.last().0@,
            s.last().1@,
        ));
        assert(e.0@ != s.last().0@);
        assert(kv_view(s.drop_last()).insert(e.0@, e.1@).insert(s.last().0@, s.last().1@)
            =~= kv_view(s.drop_last()).insert(s.last().0@, s.last().1@).insert(e.0@, e.1@));
    }
}

proof fn lemma_kv_view_remove(s: Seq<(String, Vec<u8>)>, i: int)
    requires
        kv_unique(s),
        0 <= i < s.len(),
    ensures
        kv_view(s.remove(i)) == kv_view(s).remove(s[i].0@),
    decreases s.len(),
{
    let k = s[i].0@;
    if i == s.len() - 1 {
        assert(s.remove(i) =~= s.drop_last());
        assert(forall|j: int| 0 <= j < s.drop_last().len() ==> s.drop_last()[j].0@ != k);
        lemma_kv_view_absent(s.drop_last(), k);
        assert(kv_view(s).remove(k) =~= kv_view(s.drop_last()));
    } else {
        assert(s.remove(i).drop_last() =~= s.drop_last().remove(i));
        assert(kv_unique(s.drop_last()));
        lemma_kv_view_remove(s.drop_last(), i);
        assert(s.remove(i).last() == s.last());
        assert(kv_view(s.remove(i)) == kv_view(s.drop_last()).remove(k).insert(
            s.last().0@,
            s.last().1@,
        ));
        assert(k != s.last().0@);
        assert(kv_view(s.drop_last()).remove(k).insert(s.last().0@, s.last().1@) =~= kv_view(
            s,
        ).remove(k));
    }
}

/// An in-memory store with the primitives the queue needs: list push and
/// pop, an atomic move between two lists, removal of one list entry, and a
/// keyed record table. It also models reachability: while `available` is
/// switched off every operation fails the way a down store would, which is
/// how outage handling is exercised. Entries are byte strings; nothing here
/// knows what they encode. Unlike a networked store, this one does not age
/// record entries out: an expiry handed to `set_with_expiry` states how
/// long a networked store would keep the entry, and has no effect here.
pub struct MemStore {
    waiting: Vec<Vec<u8>>,
    processing: Vec<Vec<u8>>,
    succeeded: Vec<Vec<u8>>,
    failed: Vec<Vec<u8>>,
    records: Vec<(String, Vec<u8>)>,
    available: bool,
}

impl View for MemStore {
    type V = StoreModel;

    closed spec fn view(&self) -> StoreModel {
        StoreModel {
            waiting: views(self.waiting),
            processing: views(self.processing),
            succeeded: views(self.succeeded),
            failed: views(self.failed),
            records: kv_view(self.records@),
            available: self.available,
        }
    }
}

impl MemStore {
    /// Internal well-formedness: record keys are not duplicated. Holds for
    /// every store this module hands out and is preserved by every
    /// operation.
    pub closed spec fn wf(&self) -> bool {
        kv_unique(self.records@)
    }

    /// A fresh, empty, reachable store.
    pub fn new() -> (s: MemStore)
        ensures
            s@.waiting == Seq::<Seq<u8>>::empty(),
            s@.processing == Seq::<Seq<u8>>::empty(),
            s@.succeeded == Seq::<Seq<u8>>::empty(),
            s@.failed == Seq::<Seq<u8>>::empty(),
            s@.records == Map::<Seq<char>, Seq<u8>>::empty(),
            s@.available,
            s.wf(),
    {
        let s = MemStore {
            waiting: Vec::new(),
            processing: Vec::new(),
            succeeded: Vec::new(),
            failed: Vec::new(),
            records: Vec::new(),
            available: true,
        };
        proof {
            assert(s@.waiting =~= Seq::<Seq<u8>>::empty());
            assert(s@.processing =~= Seq::<Seq<u8>>::empty());
            assert(s@.succeeded =~= Seq::<Seq<u8>>::empty());
            assert(s@.failed =~= Seq::<Seq<u8>>::empty());
        }
        s
    }

    /// Make the store reachable or unreachable. This stands for the outside
    /// world: a store going down is not something the queue controls.
    pub fn set_available(&mut self, available: bool)
        ensures
            final(self)@ == (StoreModel { available, ..old(self)@ }),
            old(self).wf() ==> final(self).wf(),
    {
        self.available = available;
    }

    /// The liveness probe: cheap, never fails, true exactly when the store
    /// is reachable.
    pub fn ping(&self) -> (r: bool)
        ensures
            r == self@.available,
    {
        self.available
    }

    /// Append an entry at the tail of a list.
    pub fn append_right(&mut self, k: ListKind, v: Vec<u8>) -> (r: Result<(), QueueError>)
        ensures
            !old(self)@.available ==> r == Err::<(), QueueError>(QueueError::StoreUnavailable)
                && final(self)@ == old(self)@,
            old(self)@.available ==> r == Ok::<(), QueueError>(()) && final(self)@ == list_set(
                old(self)@,
                k,
                list_get(old(self)@, k).push(v@),
            ),
            old(self).wf() ==> final(self).wf(),
    {
        if !self.available {
            return Err(QueueError::StoreUnavailable);
        }
        let ghost pre = self@;
        match k {
            ListKind::Waiting => push_back(&mut self.waiting, v),
            ListKind::Processing => push_back(&mut self.processing, v),
            ListKind::Succeeded => push_back(&mut self.succeeded, v),
            ListKind::Failed => push_back(&mut self.failed, v),
        }
        proof {
            assert(self@ =~= list_set(pre, k, list_get(pre, k).push(v@)));
        }
        Ok(())
    }

    /// Prepend an entry at the head of a list.
    pub fn append_left(&mut self, k: ListKind, v: Vec<u8>) -> (r: Result<(), QueueError>)
        ensures
            !old(self)@.available ==> r == Err::<(), QueueError>(QueueError::StoreUnavailable)
                && final(self)@ == old(self)@,
            old(self)@.available ==> r == Ok::<(), QueueError>(()) && final(self)@ == list_set(
                old(self)@,
                k,
                seq![v@] + list_get(old(self)@, k),
            ),
            old(self).wf() ==> final(self).wf(),
    {
        if !self.available {
            return Err(QueueError::StoreUnavailable);
        }
        let ghost pre = self@;
        match k {
            ListKind::Waiting => push_front(&mut self.waiting, v),
            ListKind::Processing => push_front(&mut self.processing, v),
            ListKind::Succeeded => push_front(&mut self.succeeded, v),
            ListKind::Failed => push_front(&mut self.failed, v),
        }
        proof {
            assert(self@ =~= list_set(pre, k, seq![v@] + list_get(pre, k)));
        }
        Ok(())
    }

    /// Take the entry at the head of a list, if there is one.
    pub fn pop_left(&mut self, k: ListKind) -> (r: Result<Option<Vec<u8>>, QueueError>)
        ensures
            !old(self)@.available ==> r == Err::<Option<Vec<u8>>, QueueError>(
                QueueError::StoreUnavailable,
            ) && final(self)@ == old(self)@,
            old(self)@.available && list_get(old(self)@, k).len() == 0 ==> r == Ok::<
                Option<Vec<u8>>,
                QueueError,
            >(None) && final(self)@ == old(self)@,
            old(self)@.available && list_get(old(self)@, k).len() > 0 ==> {
                &&& r matches Ok(Some(v)) && v@ == list_get(old(self)@, k)[0]
                &&& final(self)@ == list_set(old(self)@, k, list_get(old(self)@, k).drop_first())
            },
            old(self).wf() ==> final(self).wf(),
    {
        if !self.available {
            return Err(QueueError::StoreUnavailable);
        }
        let ghost pre = self@;
        let popped = match k {
            ListKind::Waiting => pop_front(&mut self.waiting),
            ListKind::Processing => pop_front(&mut self.processing),
            ListKind::Succeeded => pop_front(&mut self.succeeded),
            ListKind::Failed => pop_front(&mut self.failed),
        };
        proof {
            if list_get(pre, k).len() == 0 {
                assert(self@ =~= pre);
            } else {
                assert(self@ =~= list_set(pre, k, list_get(pre, k).drop_first()));
            }
        }
        Ok(popped)
    }

    /// Atomically move the head of one list to the tail of another. From
    /// the store's point of view no state in which the entry has left the
    /// source but not reached the destination is ever observable.
    pub fn atomic_move(&mut self, from: ListKind, to: ListKind) -> (r: Result<
        Option<Vec<u8>>,
        QueueError,
    >)
        requires
            from != to,
        ensures
            !old(self)@.available ==> r == Err::<Option<Vec<u8>>, QueueError>(
                QueueError::StoreUnavailable,
            ) && final(self)@ == old(self)@,
            old(self)@.available && list_get(old(self)@, from).len() == 0 ==> r == Ok::<
                Option<Vec<u8>>,
                QueueError,
            >(None) && final(self)@ == old(self)@,
            old(self)@.available && list_get(old(self)@, from).len() > 0 ==> {
                &&& r matches Ok(Some(v)) && v@ == list_get(old(self)@, from)[0]
                &&& final(self)@ == list_set(
                    list_set(old(self)@, from, list_get(old(self)@, from).drop_first()),
                    to,
                    list_get(old(self)@, to).push(list_get(old(self)@, from)[0]),
                )
            },
            old(self).wf() ==> final(self).wf(),
    {
        if !self.available {
            return Err(QueueError::StoreUnavailable);
        }
        let ghost pre = self@;
        let popped = match from {
            ListKind::Waiting => pop_front(&mut self.waiting),
            ListKind::Processing => pop_front(&mut self.processing),
            ListKind::Succeeded => pop_front(&mut self.succeeded),
            ListKind::Failed => pop_front(&mut self.failed),
        };
        let v = match popped {
            None => {
                proof {
                    assert(self@ =~= pre);
                }
                return Ok(None);
            },
            Some(v) => v,
        };
        let ghost mid = self@;
        let entry = vstd::slice::slice_to_vec(v.as_slice());
        match to {
            ListKind::Waiting => push_back(&mut self.waiting, v),
            ListKind::Processing => push_back(&mut self.processing, v),
            ListKind::Succeeded => push_back(&mut self.succeeded, v),
            ListKind::Failed => push_back(&mut self.failed, v),
        }
        proof {
            assert(mid =~= list_set(pre, from, list_get(pre, from).drop_first()));
            assert(self@ =~= list_set(
                list_set(pre, from, list_get(pre, from).drop_first()),
                to,
                list_get(pre, to).push(list_get(pre, from)[0]),
            ));
        }
        Ok(Some(entry))
    }

    /// Remove the first entry of a list that equals `v`. Returns whether
    /// one was found.
    pub fn remove_one(&mut self, k: ListKind, v: &Vec<u8>) -> (r: Result<bool, QueueError>)
        ensures
            !old(self)@.available ==> r == Err::<bool, QueueError>(QueueError::StoreUnavailable)
                && final(self)@ == old(self)@,
            old(self)@.available ==> r is Ok,
            old(self)@.available && first_index_of(list_get(old(self)@, k), v@) == -1 ==> r == Ok::<
                bool,
                QueueError,
            >(false) && final(self)@ == old(self)@,
            old(self)@.available && first_index_of(list_get(old(self)@, k), v@) != -1 ==> r == Ok::<
                bool,
                QueueError,
            >(true) && final(self)@ == list_set(
                old(self)@,
                k,
                list_get(old(self)@, k).remove(first_index_of(list_get(old(self)@, k), v@)),
            ),
            old(self).wf() ==> final(self).wf(),
    {
        if !self.available {
            return Err(QueueError::StoreUnavailable);
        }
        let ghost pre = self@;
        let found = match k {
            ListKind::Waiting => remove_first_match(&mut self.waiting, v),
            ListKind::Processing => remove_first_match(&mut self.processing, v),
            ListKind::Succeeded => remove_first_match(&mut self.succeeded, v),
            ListKind::Failed => remove_first_match(&mut self.failed, v),
        };
        proof {
            let i = first_index_of(list_get(pre, k), v@);
            lemma_first_index_of_in_range(list_get(pre, k), v@);
            if i == -1 {
                assert(self@ =~= pre);
            } else {
                assert(self@ =~= list_set(pre, k, list_get(pre, k).remove(i))) by {
                    assert(list_get(self@, k) =~= list_get(pre, k).remove(i));
                }
            }
        }
        Ok(found)
    }

    /// Number of entries in a list.
    pub fn llen(&self, k: ListKind) -> (r: Result<usize, QueueError>)
        ensures
            !self@.available ==> r == Err::<usize, QueueError>(QueueError::StoreUnavailable),
            self@.available ==> (r matches Ok(n) && n == list_get(self@, k).len()),
    {
        if !self.available {
            return Err(QueueError::StoreUnavailable);
        }
        let n = match k {
            ListKind::Waiting => self.waiting.len(),
            ListKind::Processing => self.processing.len(),
            ListKind::Succeeded => self.succeeded.len(),
            ListKind::Failed => self.failed.len(),
        };
        Ok(n)
    }

    /// Store a record under a key, replacing any previous value. The expiry
    /// is how long a networked store would keep the entry; this store keeps
    /// it until it is deleted.
    pub fn set_with_expiry(&mut self, key: &String, v: Vec<u8>, ttl_secs: u64) -> (r: Result<
        (),
        QueueError,
    >)
        requires
            old(self).wf(),
        ensures
            final(self).wf(),
            !old(self)@.available ==> r == Err::<(), QueueError>(QueueError::StoreUnavailable)
                && final(self)@ == old(self)@,
            old(self)@.available ==> r == Ok::<(), QueueError>(()) && final(self)@ == (StoreModel {
                records: old(self)@.records.insert(key@, v@),
                ..old(self)@
            }),
    {
        if !self.available {
            return Err(QueueError::StoreUnavailable);
        }
        let ghost pre = self@;
        let mut i: usize = 0;
        while i < self.records.len()
            invariant
                i <= self.records.len(),
                kv_unique(self.records@),
                self@ == pre,
                pre == old(self)@,
                pre.available,
                forall|j: int| 0 <= j < i ==> self.records@[j].0@ != key@,
            decreases self.records.len() - i,
        {
            if self.records[i].0 == *key {
                let ghost recs = self.records@;
                let k2 = self.records[i].0.clone();
                let entry = (k2, v);
                let ghost e = entry;
                self.records[i] = entry;
                proof {
                    lemma_kv_view_update(recs, i as int, e);
                    assert(kv_unique(self.records@));
                    assert(self@ =~= (StoreModel { records: pre.records.insert(key@, v@), ..pre }));
                }
                return Ok(());
            }
            i = i + 1;
        }
        let ghost recs = self.records@;
        self.records.push((key.clone(), v));
        proof {
            assert(self.records@.drop_last() =~= recs);
            assert(kv_view(self.records@) == kv_view(recs).insert(
                self.records@.last().0@,
                self.records@.last().1@,
            ));
            assert(kv_unique(self.records@));
            assert(self@ =~= (StoreModel { records: pre.records.insert(key@, v@), ..pre }));
        }
        Ok(())
    }

    /// Look a record up by its key.
    pub fn get(&self, key: &String) -> (r: Result<Option<Vec<u8>>, QueueError>)
        requires
            self.wf(),
        ensures
            !self@.available ==> r == Err::<Option<Vec<u8>>, QueueError>(
                QueueError::StoreUnavailable,
            ),
            self@.available && self@.records.contains_key(key@) ==> (r matches Ok(Some(v))
                && v@ == self@.records[key@]),
            self@.available && !self@.records.contains_key(key@) ==> r == Ok::<
                Option<Vec<u8>>,
                QueueError,
            >(None),
    {
        if !self.available {
            return Err(QueueError::StoreUnavailable);
        }
        let mut i: usize = 0;
        while i < self.records.len()
            invariant
                i <= self.records.len(),
                self.wf(),
                self@.available,
                forall|j: int| 0 <= j < i ==> self.records@[j].0@ != key@,
            decreases self.records.len() - i,
        {
            if self.records[i].0 == *key {
                let v = vstd::slice::slice_to_vec(self.records[i].1.as_slice());
                proof {
                    lemma_kv_view_index(self.records@, i as int);
                }
                return Ok(Some(v));
            }
            i = i + 1;
        }
        proof {
            lemma_kv_view_absent(self.records@, key@);
        }
        Ok(None)
    }

    /// Delete a record by its key. Deleting an absent key is not an error.
    pub fn delete(&mut self, key: &String) -> (r: Result<(), QueueError>)
        requires
            old(self).wf(),
        ensures
            final(self).wf(),
            !old(self)@.available ==> r == Err::<(), QueueError>(QueueError::StoreUnavailable)
                && final(self)@ == old(self)@,
            old(self)@.available ==> r == Ok::<(), QueueError>(()) && final(self)@ == (StoreModel {
                records: old(self)@.records.remove(key@),
                ..old(self)@
            }),
    {
        if !self.available {
            return Err(QueueError::StoreUnavailable);
        }
        let ghost pre = self@;
        let mut i: usize = 0;
        while i < self.records.len()
            invariant
                i <= self.records.len(),
                kv_unique(self.records@),
                self@ == pre,
                pre == old(self)@,
                pre.available,
                forall|j: int| 0 <= j < i ==> self.records@[j].0@ != key@,
            decreases self.records.len() - i,
        {
            if self.records[i].0 == *key {
                let ghost recs = self.records@;
                self.records.remove(i);
                proof {
                    lemma_kv_view_remove(recs, i as int);
                    assert(kv_unique(self.records@)) by {
                        assert(forall|a: int, b: int|
                            0 <= a < b < self.records@.len() ==> self.records@[a].0@
                                != self.records@[b].0@) by {
                            assert(forall|a: int|
                                0 <= a < self.records@.len() ==> self.records@[a]
                                    == if a < i as int {
                                    recs[a]
                                } else {
                                    recs[a + 1]
                                });
                        }
                    }
                    assert(self@ =~= (StoreModel { records: pre.records.remove(key@), ..pre }));
                }
                return Ok(());
            }
            i = i + 1;
        }
        proof {
            lemma_kv_view_absent(self.records@, key@);
            assert(pre.records.remove(key@) =~= pre.records);
            assert(self@ =~= (StoreModel { records: pre.records.remove(key@), ..pre }));
        }
        Ok(())
    }
}

} // verus!
