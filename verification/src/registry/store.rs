//! The registry store: the records of a service's healthy instances,
//! selectable by key through the consistent-hash ring.

use vstd::prelude::*;
use vstd::map::*;

use crate::consistent_hash::{
    virt_entries, virt_hash_set, ConsistentHashRing, lemma_virt_entries_members,
    lemma_virt_hash_set_members,
};
use crate::registry::model::ServiceEntry;

verus! {

/// A service instance together with the resource attached to it when the
/// registry was refreshed (typically an open connection).
pub struct ServiceData<T> {
    entry: ServiceEntry,
    extra_data: T,
}

impl<T> ServiceData<T> {
    pub closed spec fn spec_entry(&self) -> ServiceEntry {
        self.entry
    }

    pub closed spec fn spec_extra(&self) -> T {
        self.extra_data
    }

    /// The instance id this record is keyed by.
    pub open spec fn spec_id(&self) -> Seq<char> {
        self.spec_entry().spec_info().spec_id()
    }

    pub fn new(instance: ServiceEntry, extra_data: T) -> (r: Self)
        ensures
            r.spec_entry() == instance,
            r.spec_extra() == extra_data,
    {
        Self { entry: instance, extra_data }
    }

    pub fn entry(&self) -> (r: &ServiceEntry)
        ensures
            *r == self.spec_entry(),
    {
        &self.entry
    }

    pub fn extra_data(&self) -> (r: &T)
        ensures
            *r == self.spec_extra(),
    {
        &self.extra_data
    }
}

/// The records described by a batch, keyed by instance id; on a repeated id
/// the later record wins.
pub open spec fn records_of<T>(s: Seq<ServiceData<T>>) -> Map<Seq<char>, ServiceData<T>>
    decreases s.len(),
{
    if s.len() == 0 {
        Map::empty()
    } else {
        records_of(s.drop_last()).insert(s.last().spec_id(), s.last())
    }
}

/// No two records in the batch share an id.
pub open spec fn distinct_ids<T>(s: Seq<ServiceData<T>>) -> bool {
    forall|i: int, j: int| 0 <= i < j < s.len() ==> s[i].spec_id() != s[j].spec_id()
}

proof fn lemma_records_of_membership<T>(s: Seq<ServiceData<T>>)
    ensures
        forall|id: Seq<char>|
            records_of(s).dom().contains(id) <==> exists|i: int|
                0 <= i < s.len() && s[i].spec_id() == id,
        records_of(s).dom().finite(),
    decreases s.len(),
{
    if s.len() == 0 {
    } else {
        lemma_records_of_membership(s.drop_last());
        assert forall|id: Seq<char>| records_of(s).dom().contains(id) implies exists|i: int|
            0 <= i < s.len() && s[i].spec_id() == id by {
            if id == s.last().spec_id() {
                assert(s[s.len() - 1].spec_id() == id);
            } else {
                let i = choose|i: int|
                    0 <= i < s.drop_last().len() && s.drop_last()[i].spec_id() == id;
                assert(s[i].spec_id() == id);
            }
        }
        assert forall|id: Seq<char>| (exists|i: int| 0 <= i < s.len() && s[i].spec_id() == id)
            implies records_of(s).dom().contains(id) by {
            let i = choose|i: int| 0 <= i < s.len() && s[i].spec_id() == id;
            if i < s.len() - 1 {
                assert(s.drop_last()[i].spec_id() == id);
            }
        }
    }
}

proof fn lemma_records_of_lookup<T>(s: Seq<ServiceData<T>>)
    requires
        distinct_ids(s),
    ensures
        forall|i: int|
            0 <= i < s.len() ==> records_of(s).dom().contains(#[trigger] s[i].spec_id())
                && records_of(s)[s[i].spec_id()] == s[i],
    decreases s.len(),
{
    if s.len() == 0 {
    } else {
        lemma_records_of_lookup(s.drop_last());
        assert forall|i: int| 0 <= i < s.len() implies records_of(s).dom().contains(
            #[trigger] s[i].spec_id(),
        ) && records_of(s)[s[i].spec_id()] == s[i] by {
            if i < s.len() - 1 {
                assert(s.drop_last()[i] == s[i]);
                assert(s[i].spec_id() != s[s.len() - 1].spec_id());
            }
        }
    }
}

proof fn lemma_records_of_len<T>(s: Seq<ServiceData<T>>)
    requires
        distinct_ids(s),
    ensures
        records_of(s).dom().finite(),
        records_of(s).len() == s.len(),
    decreases s.len(),
{
    if s.len() == 0 {
        assert(records_of(s).dom() =~= Set::<Seq<char>>::empty());
    } else {
        lemma_records_of_len(s.drop_last());
        lemma_records_of_membership(s.drop_last());
        assert(!records_of(s.drop_last()).dom().contains(s.last().spec_id())) by {
            if records_of(s.drop_last()).dom().contains(s.last().spec_id()) {
                let i = choose|i: int|
                    0 <= i < s.drop_last().len() && s.drop_last()[i].spec_id()
                        == s.last().spec_id();
                assert(s[i].spec_id() == s[s.len() - 1].spec_id());
            }
        }
        vstd::set::axiom_set_insert_len(
            records_of(s.drop_last()).dom(),
            s.last().spec_id(),
        );
        assert(records_of(s).dom() =~= records_of(s.drop_last()).dom().insert(
            s.last().spec_id(),
        ));
    }
}

proof fn lemma_records_of_update<T>(s: Seq<ServiceData<T>>, j: int, d: ServiceData<T>)
    requires
        distinct_ids(s),
        0 <= j < s.len(),
        s[j].spec_id() == d.spec_id(),
    ensures
        records_of(s.update(j, d)) == records_of(s).insert(d.spec_id(), d),
    decreases s.len(),
{
    let ns = s.update(j, d);
    if j == s.len() - 1 {
        assert(ns.last() == d);
        assert(ns.drop_last() =~= s.drop_last());
        assert(records_of(s).insert(d.spec_id(), d) =~= records_of(s.drop_last()).insert(
            s.last().spec_id(),
            s.last(),
        ).insert(d.spec_id(), d));
        assert(records_of(s.drop_last()).insert(s.last().spec_id(), s.last()).insert(
            d.spec_id(),
            d,
        ) =~= records_of(s.drop_last()).insert(d.spec_id(), d));
    } else {
        assert(ns.last() == s.last());
        assert(ns.drop_last() =~= s.drop_last().update(j, d));
        assert(distinct_ids(s.drop_last())) by {
            assert(forall|i: int|
                0 <= i < s.drop_last().len() ==> s.drop_last()[i] == #[trigger] s[i]);
        }
        assert(s.drop_last()[j] == s[j]);
        lemma_records_of_update(s.drop_last(), j, d);
        assert(d.spec_id() != s.last().spec_id()) by {
            assert(s[j].spec_id() != s[s.len() - 1].spec_id());
        }
        assert(records_of(ns) == records_of(s.drop_last()).insert(d.spec_id(), d).insert(
            s.last().spec_id(),
            s.last(),
        ));
        assert(records_of(s.drop_last()).insert(d.spec_id(), d).insert(
            s.last().spec_id(),
            s.last(),
        ) =~= records_of(s.drop_last()).insert(s.last().spec_id(), s.last()).insert(
            d.spec_id(),
            d,
        ));
    }
}

/// Capability set of a registry store: select a record by key, list all
/// records, replace them as one batch, and drop them.
pub trait Store: Sized {
    type Extra;

    /// The records held, keyed by instance id.
    spec fn records(&self) -> Map<Seq<char>, ServiceData<Self::Extra>>;

    /// The store's internal consistency condition.
    spec fn inv(&self) -> bool;

    /// Selects the record that serves `key`. An empty store yields no
    /// record; a returned record is always one of the records held.
    fn pick(&self, key: &str) -> (r: Option<&ServiceData<Self::Extra>>)
        requires
            self.inv(),
        ensures
            r is Some <==> self.records().len() != 0,
            r matches Some(d) ==> self.records().contains_key(d.spec_id())
                && self.records()[d.spec_id()] == *d,
    ;

    /// Lists exactly the records held, one per instance id.
    fn list(&self) -> (r: Vec<&ServiceData<Self::Extra>>)
        requires
            self.inv(),
        ensures
            r@.len() == self.records().len(),
            forall|i: int|
                0 <= i < r@.len() ==> self.records().contains_key(#[trigger] r@[i].spec_id())
                    && self.records()[r@[i].spec_id()] == *r@[i],
            forall|i: int, j: int| 0 <= i < j < r@.len() ==> r@[i].spec_id() != r@[j].spec_id(),
            forall|id: Seq<char>|
                self.records().contains_key(id) ==> exists|i: int|
                    0 <= i < r@.len() && #[trigger] r@[i].spec_id() == id,
    ;

    /// Replaces every record with the batch, atomically from the point of
    /// view of the contracts: afterwards exactly the batch is held.
    fn update(&mut self, datas: Vec<ServiceData<Self::Extra>>)
        requires
            old(self).inv(),
        ensures
            final(self).inv(),
            final(self).records() == records_of(datas@),
    ;

    /// Drops every record.
    fn clear(&mut self)
        requires
            old(self).inv(),
        ensures
            final(self).inv(),
            final(self).records() === Map::empty(),
    ;
}

/// Registry store backed by a consistent-hash ring over instance ids.
pub struct ConsistHashStore<T> {
    ring: ConsistentHashRing,
    replicas: usize,
    instances: Vec<ServiceData<T>>,
}

impl<T> ConsistHashStore<T> {
    /// The ring holds entries for instance ids only, and it is empty only
    /// when no instance is held.
    pub closed spec fn ring_tracks_instances(&self) -> bool {
        &&& forall|h: u64|
            self.ring.model().dom().contains(h) ==> exists|i: int|
                0 <= i < self.instances@.len() && #[trigger] self.instances@[i].spec_id()
                    == self.ring.model()[h]
        &&& (self.instances@.len() > 0 ==> self.ring.model().len() != 0)
    }

    /// Builds a store whose ring places `replicas` virtual nodes per
    /// instance. At least one replica is required: with none, no instance
    /// could ever be selected.
    pub fn new(replicas: usize) -> (r: Self)
        requires
            replicas >= 1,
        ensures
            r.inv(),
            r.records() === Map::empty(),
    {
        let r = Self { ring: ConsistentHashRing::new(replicas), replicas, instances: Vec::new() };
        proof {
            assert(r.records() =~= Map::<Seq<char>, ServiceData<T>>::empty());
        }
        r
    }
}

impl<T> Store for ConsistHashStore<T> {
    type Extra = T;

    closed spec fn records(&self) -> Map<Seq<char>, ServiceData<T>> {
        records_of(self.instances@)
    }

    closed spec fn inv(&self) -> bool {
        &&& self.ring.wf()
        &&& self.replicas >= 1
        &&& self.ring.spec_replicas() == self.replicas as nat
        &&& distinct_ids(self.instances@)
        &&& self.ring_tracks_instances()
    }

    fn pick(&self, key: &str) -> (r: Option<&ServiceData<T>>)
    {
        proof {
            lemma_records_of_membership(self.instances@);
            lemma_records_of_lookup(self.instances@);
            lemma_records_of_len(self.instances@);
        }
        match self.ring.get_node(key) {
            None => {
                proof {
                    self.ring.lemma_model_entries();
                }
                None
            },
            Some(owner) => {
                proof {
                    self.ring.lemma_model_entries();
                }
                let found = find_by_id(&self.instances, &owner);
                proof {
                    // the ring only names ids of held instances
                    let k = choose|k: u64|
                        #[trigger] crate::consistent_hash::serving_point(
                            self.ring.model(),
                            crate::hashing::hash_of(key@),
                            k,
                        ) && owner@ == self.ring.model()[k];
                    assert(exists|i: int|
                        0 <= i < self.instances@.len() && #[trigger] self.instances@[i].spec_id()
                            == owner@);
                }
                match found {
                    Some(d) => Some(d),
                    None => None,
                }
            },
        }
    }

    fn list(&self) -> (r: Vec<&ServiceData<T>>)
    {
        proof {
            lemma_records_of_membership(self.instances@);
            lemma_records_of_lookup(self.instances@);
            lemma_records_of_len(self.instances@);
        }
        let mut r: Vec<&ServiceData<T>> = Vec::new();
        let n = self.instances.len();
        for i in 0..n
            invariant
                n == self.instances@.len(),
                r@.len() == i,
                forall|j: int| 0 <= j < i ==> r@[j] == &self.instances@[j],
        {
            r.push(&self.instances[i]);
        }
        proof {
            assert forall|id: Seq<char>| self.records().contains_key(id) implies exists|i: int|
                0 <= i < r@.len() && #[trigger] r@[i].spec_id() == id by {
                let i = choose|i: int|
                    0 <= i < self.instances@.len() && self.instances@[i].spec_id() == id;
                assert(r@[i].spec_id() == id);
            }
        }
        r
    }

    fn update(&mut self, datas: Vec<ServiceData<T>>)
    {
        let replicas = self.replicas;
        let mut fresh = ConsistentHashRing::new(replicas);
        let mut kept: Vec<ServiceData<T>> = Vec::new();
        let n = datas.len();
        let mut consumed = datas;
        let ghost all = consumed@;
        for i in 0..n
            invariant
                replicas >= 1,
                n == all.len(),
                consumed@ == all.skip(i as int),
                fresh.wf(),
                fresh.spec_replicas() == replicas as nat,
                distinct_ids(kept@),
                records_of(kept@) == records_of(all.take(i as int)),
                forall|h: u64|
                    fresh.model().dom().contains(h) ==> exists|j: int|
                        0 <= j < kept@.len() && #[trigger] kept@[j].spec_id() == fresh.model()[h],
                kept@.len() > 0 ==> fresh.model().len() != 0,
                kept@.len() <= i,
        {
            let d = consumed.remove(0);
            proof {
                assert(d == all[i as int]);
                assert(consumed@ =~= all.skip(i as int + 1));
            }
            let id_string = d.entry().info().id().to_owned();
            let ghost pre_model = fresh.model();
            fresh.add_node(id_string.as_str());
            proof {
                lemma_virt_entries_members(id_string@, replicas as nat);
                lemma_virt_hash_set_members(id_string@, replicas as nat);
                assert(0 < replicas as nat && crate::hashing::hash_of(
                    crate::consistent_hash::virt_id(id_string@, 0),
                ) == crate::hashing::hash_of(crate::consistent_hash::virt_id(id_string@, 0)));
                assert(virt_hash_set(id_string@, replicas as nat).contains(
                    crate::hashing::hash_of(crate::consistent_hash::virt_id(id_string@, 0)),
                ));
                fresh.lemma_model_entries();
                assert(d.spec_id() == id_string@);
            }
            let ghost kept_before = kept@;
            let pos = find_index_by_id(&kept, &id_string);
            if pos < kept.len() {
                // a repeated id within one batch: the later record wins
                kept.remove(pos);
                kept.insert(pos, d);
                proof {
                    assert(kept@ =~= kept_before.update(pos as int, d));
                    lemma_records_of_update(kept_before, pos as int, d);
                    assert(distinct_ids(kept@)) by {
                        assert forall|a: int, b: int| 0 <= a < b < kept@.len() implies kept@[
                            a
                        ].spec_id() != kept@[b].spec_id() by {
                            assert(kept@[a].spec_id() == kept_before[a].spec_id());
                            assert(kept@[b].spec_id() == kept_before[b].spec_id());
                        }
                    }
                }
            } else {
                kept.push(d);
                proof {
                    assert(kept@.drop_last() =~= kept_before);
                    assert(records_of(kept@) == records_of(kept_before).insert(d.spec_id(), d));
                    assert(distinct_ids(kept@)) by {
                        assert forall|a: int, b: int| 0 <= a < b < kept@.len() implies kept@[
                            a
                        ].spec_id() != kept@[b].spec_id() by {
                            if b == kept@.len() - 1 {
                                assert(kept@[a] == kept_before[a]);
                                assert(kept_before[a].spec_id() != d.spec_id());
                            } else {
                                assert(kept@[a] == kept_before[a] && kept@[b] == kept_before[b]);
                            }
                        }
                    }
                }
            }
            proof {
                assert(all.take(i as int + 1).drop_last() =~= all.take(i as int));
                assert(all.take(i as int + 1).last() == d);
                assert(records_of(all.take(i as int + 1)) == records_of(all.take(i as int)).insert(
                    d.spec_id(),
                    d,
                ));
                let h0 = crate::hashing::hash_of(crate::consistent_hash::virt_id(id_string@, 0));
                assert(virt_entries(id_string@, replicas as nat).dom().contains(h0));
                assert(fresh.model().dom().contains(h0));
                assert(fresh.model().len() != 0) by {
                    assert(fresh.hashes().contains(h0));
                    let ix = choose|ix: int|
                        0 <= ix < fresh.hashes().len() && fresh.hashes()[ix] == h0;
                    assert(fresh.hashes().len() > 0);
                }
                lemma_records_of_membership(kept@);
                assert(records_of(kept@).dom().contains(d.spec_id()));
                assert forall|h: u64| fresh.model().dom().contains(h) implies exists|j: int|
                    0 <= j < kept@.len() && #[trigger] kept@[j].spec_id() == fresh.model()[h] by {
                    if virt_entries(id_string@, replicas as nat).dom().contains(h) {
                        assert(fresh.model()[h] == id_string@);
                        let j = choose|j: int|
                            0 <= j < kept@.len() && kept@[j].spec_id() == d.spec_id();
                        assert(kept@[j].spec_id() == fresh.model()[h]);
                    } else {
                        assert(pre_model.dom().contains(h));
                        assert(fresh.model()[h] == pre_model[h]);
                        let j = choose|j: int|
                            0 <= j < kept_before.len() && kept_before[j].spec_id() == pre_model[h];
                        assert(0 <= j < kept@.len());
                        assert(kept@[j].spec_id() == kept_before[j].spec_id()) by {
                            if pos < kept_before.len() {
                                assert(kept@ == kept_before.update(pos as int, d));
                                if j == pos {
                                    assert(kept_before[j].spec_id() == id_string@);
                                }
                            } else {
                                assert(kept@[j] == kept_before[j]);
                            }
                        }
                        assert(kept@[j].spec_id() == fresh.model()[h]);
                    }
                }
            }
        }
        self.ring = fresh;
        self.instances = kept;
        proof {
            assert(all.take(n as int) =~= all);
        }
    }

    fn clear(&mut self)
    {
        self.ring.clear();
        self.instances.clear();
        proof {
            assert(self.records() =~= Map::<Seq<char>, ServiceData<T>>::empty());
        }
    }
}

/// First record whose id reads `id`, if one is held.
fn find_by_id<'a, T>(v: &'a Vec<ServiceData<T>>, id: &String) -> (r: Option<&'a ServiceData<T>>)
    ensures
        r matches Some(d) ==> exists|i: int|
            0 <= i < v@.len() && #[trigger] v@[i] == *d && v@[i].spec_id() == id@,
        r is None ==> forall|i: int| 0 <= i < v@.len() ==> v@[i].spec_id() != id@,
{
    let n = v.len();
    for i in 0..n
        invariant
            n == v@.len(),
            forall|j: int| 0 <= j < i ==> v@[j].spec_id() != id@,
    {
        if v[i].entry().info().id_is(id) {
            return Some(&v[i]);
        }
    }
    None
}

/// Position of the first record whose id reads `id`; the length when none.
fn find_index_by_id<T>(v: &Vec<ServiceData<T>>, id: &String) -> (r: usize)
    ensures
        r <= v@.len(),
        r < v@.len() ==> v@[r as int].spec_id() == id@,
        forall|j: int| 0 <= j < r ==> v@[j].spec_id() != id@,
{
    let n = v.len();
    for i in 0..n
        invariant
            n == v@.len(),
            forall|j: int| 0 <= j < i ==> v@[j].spec_id() != id@,
    {
        if v[i].entry().info().id_is(id) {
            return i;
        }
    }
    n
}

/// Pairs each listed instance with the resource its transformer produced,
/// in listing order.
pub fn build_service_records<T>(entries: Vec<ServiceEntry>, extras: Vec<T>) -> (r: Vec<
    ServiceData<T>,
>)
    requires
        entries@.len() == extras@.len(),
    ensures
        r@.len() == entries@.len(),
        forall|i: int|
            0 <= i < r@.len() ==> (#[trigger] r@[i]).spec_entry() == entries@[i]
                && r@[i].spec_extra() == extras@[i],
{
    let mut out: Vec<ServiceData<T>> = Vec::new();
    let mut es = entries;
    let mut xs = extras;
    let ghost all_e = es@;
    let ghost all_x = xs@;
    let n = es.len();
    for i in 0..n
        invariant
            n == all_e.len(),
            all_e.len() == all_x.len(),
            es@ == all_e.skip(i as int),
            xs@ == all_x.skip(i as int),
            out@.len() == i,
            forall|j: int|
                0 <= j < i ==> (#[trigger] out@[j]).spec_entry() == all_e[j]
                    && out@[j].spec_extra() == all_x[j],
    {
        let e = es.remove(0);
        let x = xs.remove(0);
        proof {
            assert(e == all_e[i as int]);
            assert(x == all_x[i as int]);
            assert(es@ =~= all_e.skip(i as int + 1));
            assert(xs@ =~= all_x.skip(i as int + 1));
        }
        out.push(ServiceData::new(e, x));
    }
    out
}

} // verus!
