//! Consistent hash ring with virtual replicas.
//!
//! Every real node is represented by `replicas` virtual points on the ring,
//! the hashes of `"<name>-<i>"`. A key is served by the owner of the least
//! virtual hash at or above the key's hash, wrapping to the smallest point
//! when none is. The ring is modelled as a finite map from virtual hash to
//! owner name; the sorted vector of hashes is the search structure.

use vstd::prelude::*;
use vstd::map::*;

use crate::hashing::{hash_of, xxhash64};
use crate::text::{dec_u64, push_char, u64_to_string};

verus! {

/// Strictly increasing sequence of hashes: sorted with no duplicates.
pub open spec fn strictly_sorted(s: Seq<u64>) -> bool {
    forall|i: int, j: int| 0 <= i < j < s.len() ==> s[i] < s[j]
}

/// Identifier of the `i`-th virtual node of a real node.
pub open spec fn virt_id(name: Seq<char>, i: nat) -> Seq<char> {
    name + seq!['-'] + dec_u64(i)
}

/// The virtual hashes of `name`'s first `replicas` virtual nodes.
pub open spec fn virt_hash_set(name: Seq<char>, replicas: nat) -> Set<u64>
    decreases replicas,
{
    if replicas == 0 {
        Set::empty()
    } else {
        virt_hash_set(name, (replicas - 1) as nat).insert(
            hash_of(virt_id(name, (replicas - 1) as nat)),
        )
    }
}

/// The ring entries contributed by `name`: each virtual hash maps to `name`.
pub open spec fn virt_entries(name: Seq<char>, replicas: nat) -> Map<u64, Seq<char>>
    decreases replicas,
{
    if replicas == 0 {
        Map::empty()
    } else {
        virt_entries(name, (replicas - 1) as nat).insert(
            hash_of(virt_id(name, (replicas - 1) as nat)),
            name,
        )
    }
}

/// Membership in `virt_hash_set` means being one of the node's virtual hashes.
pub proof fn lemma_virt_hash_set_members(name: Seq<char>, replicas: nat)
    ensures
        forall|h: u64|
            virt_hash_set(name, replicas).contains(h) <==> exists|i: nat|
                i < replicas && h == hash_of(virt_id(name, i)),
        virt_hash_set(name, replicas).finite(),
    decreases replicas,
{
    if replicas == 0 {
    } else {
        let prev = (replicas - 1) as nat;
        lemma_virt_hash_set_members(name, prev);
        assert forall|h: u64| virt_hash_set(name, replicas).contains(h) implies exists|i: nat|
            i < replicas && h == hash_of(virt_id(name, i)) by {
            if h == hash_of(virt_id(name, prev)) {
                assert(prev < replicas && h == hash_of(virt_id(name, prev)));
            } else {
                let i = choose|i: nat| i < prev && h == hash_of(virt_id(name, i));
                assert(i < replicas && h == hash_of(virt_id(name, i)));
            }
        }
        assert forall|h: u64| (exists|i: nat| i < replicas && h == hash_of(virt_id(name, i)))
            implies virt_hash_set(name, replicas).contains(h) by {
            let i = choose|i: nat| i < replicas && h == hash_of(virt_id(name, i));
            if i < prev {
                assert(virt_hash_set(name, prev).contains(h));
            }
        }
    }
}

/// The entries of a node cover exactly its virtual hashes, all owned by it.
pub proof fn lemma_virt_entries_members(name: Seq<char>, replicas: nat)
    ensures
        virt_entries(name, replicas).dom() =~= virt_hash_set(name, replicas),
        forall|h: u64|
            virt_entries(name, replicas).dom().contains(h)
                ==> virt_entries(name, replicas)[h] == name,
    decreases replicas,
{
    if replicas == 0 {
    } else {
        lemma_virt_entries_members(name, (replicas - 1) as nat);
    }
}

/// The finite map described by parallel hash and owner sequences.
pub open spec fn seqs_map(hs: Seq<u64>, os: Seq<Seq<char>>) -> Map<u64, Seq<char>>
    decreases hs.len(),
{
    if hs.len() == 0 || os.len() == 0 {
        Map::empty()
    } else {
        seqs_map(hs.drop_last(), os.drop_last()).insert(hs.last(), os.last())
    }
}

/// No two positions hold the same hash.
pub open spec fn distinct_seq(hs: Seq<u64>) -> bool {
    forall|i: int, j: int| 0 <= i < j < hs.len() ==> hs[i] != hs[j]
}

proof fn lemma_seqs_map_dom(hs: Seq<u64>, os: Seq<Seq<char>>)
    requires
        hs.len() == os.len(),
    ensures
        forall|h: u64| seqs_map(hs, os).dom().contains(h) <==> hs.contains(h),
        seqs_map(hs, os).dom().finite(),
    decreases hs.len(),
{
    if hs.len() == 0 {
        assert(forall|h: u64| !hs.contains(h));
    } else {
        lemma_seqs_map_dom(hs.drop_last(), os.drop_last());
        assert forall|h: u64| seqs_map(hs, os).dom().contains(h) implies hs.contains(h) by {
            if h == hs.last() {
                assert(hs[hs.len() - 1] == h);
            } else {
                assert(hs.drop_last().contains(h));
                let i = choose|i: int| 0 <= i < hs.drop_last().len() && hs.drop_last()[i] == h;
                assert(hs[i] == h);
            }
        }
        assert forall|h: u64| hs.contains(h) implies seqs_map(hs, os).dom().contains(h) by {
            let i = choose|i: int| 0 <= i < hs.len() && hs[i] == h;
            if i < hs.len() - 1 {
                assert(hs.drop_last()[i] == h);
                assert(hs.drop_last().contains(h));
            }
        }
    }
}

proof fn lemma_seqs_map_lookup(hs: Seq<u64>, os: Seq<Seq<char>>)
    requires
        hs.len() == os.len(),
        distinct_seq(hs),
    ensures
        forall|i: int|
            0 <= i < hs.len() ==> seqs_map(hs, os).dom().contains(#[trigger] hs[i]) && seqs_map(
                hs,
                os,
            )[hs[i]] == os[i],
    decreases hs.len(),
{
    if hs.len() == 0 {
    } else {
        lemma_seqs_map_lookup(hs.drop_last(), os.drop_last());
        assert forall|i: int| 0 <= i < hs.len() implies seqs_map(hs, os).dom().contains(
            #[trigger] hs[i],
        ) && seqs_map(hs, os)[hs[i]] == os[i] by {
            if i == hs.len() - 1 {
            } else {
                assert(hs.drop_last()[i] == hs[i]);
                assert(os.drop_last()[i] == os[i]);
                assert(hs[i] != hs.last());
            }
        }
    }
}

proof fn lemma_seqs_map_len(hs: Seq<u64>, os: Seq<Seq<char>>)
    requires
        hs.len() == os.len(),
        distinct_seq(hs),
    ensures
        seqs_map(hs, os).dom().finite(),
        seqs_map(hs, os).len() == hs.len(),
    decreases hs.len(),
{
    if hs.len() == 0 {
        assert(seqs_map(hs, os).dom() =~= Set::<u64>::empty());
    } else {
        lemma_seqs_map_len(hs.drop_last(), os.drop_last());
        lemma_seqs_map_dom(hs.drop_last(), os.drop_last());
        assert(!hs.drop_last().contains(hs.last())) by {
            if hs.drop_last().contains(hs.last()) {
                let i = choose|i: int|
                    0 <= i < hs.drop_last().len() && hs.drop_last()[i] == hs.last();
                assert(hs[i] == hs[hs.len() - 1]);
            }
        }
    }
}

proof fn lemma_seqs_map_insert(hs: Seq<u64>, os: Seq<Seq<char>>, k: int, h: u64, o: Seq<char>)
    requires
        hs.len() == os.len(),
        0 <= k <= hs.len(),
        !hs.contains(h),
    ensures
        seqs_map(hs.insert(k, h), os.insert(k, o)) == seqs_map(hs, os).insert(h, o),
    decreases hs.len(),
{
    let nhs = hs.insert(k, h);
    let nos = os.insert(k, o);
    if k == hs.len() {
        assert(nhs.last() == h);
        assert(nos.last() == o);
        assert(nhs.drop_last() =~= hs);
        assert(nos.drop_last() =~= os);
    } else {
        assert(nhs.last() == hs.last());
        assert(nos.last() == os.last());
        assert(nhs.drop_last() =~= hs.drop_last().insert(k, h));
        assert(nos.drop_last() =~= os.drop_last().insert(k, o));
        assert(!hs.drop_last().contains(h)) by {
            if hs.drop_last().contains(h) {
                let i = choose|i: int| 0 <= i < hs.drop_last().len() && hs.drop_last()[i] == h;
                assert(hs[i] == h);
            }
        }
        lemma_seqs_map_insert(hs.drop_last(), os.drop_last(), k, h, o);
        assert(h != hs.last()) by {
            assert(hs[hs.len() - 1] == hs.last());
        }
        assert(seqs_map(nhs, nos) == seqs_map(hs.drop_last(), os.drop_last()).insert(
            h,
            o,
        ).insert(hs.last(), os.last()));
        assert(seqs_map(hs.drop_last(), os.drop_last()).insert(h, o).insert(hs.last(), os.last())
            =~= seqs_map(hs.drop_last(), os.drop_last()).insert(hs.last(), os.last()).insert(
            h,
            o,
        ));
    }
}

proof fn lemma_seqs_map_remove(hs: Seq<u64>, os: Seq<Seq<char>>, k: int)
    requires
        hs.len() == os.len(),
        distinct_seq(hs),
        0 <= k < hs.len(),
    ensures
        seqs_map(hs.remove(k), os.remove(k)) == seqs_map(hs, os).remove(hs[k]),
    decreases hs.len(),
{
    let nhs = hs.remove(k);
    let nos = os.remove(k);
    if k == hs.len() - 1 {
        assert(nhs =~= hs.drop_last());
        assert(nos =~= os.drop_last());
        lemma_seqs_map_dom(hs.drop_last(), os.drop_last());
        assert(!hs.drop_last().contains(hs.last())) by {
            if hs.drop_last().contains(hs.last()) {
                let i = choose|i: int|
                    0 <= i < hs.drop_last().len() && hs.drop_last()[i] == hs.last();
                assert(hs[i] == hs[hs.len() - 1]);
            }
        }
        assert(seqs_map(hs.drop_last(), os.drop_last()).insert(hs.last(), os.last()).remove(
            hs.last(),
        ) =~= seqs_map(hs.drop_last(), os.drop_last()));
    } else {
        assert(nhs.last() == hs.last());
        assert(nos.last() == os.last());
        assert(nhs.drop_last() =~= hs.drop_last().remove(k));
        assert(nos.drop_last() =~= os.drop_last().remove(k));
        assert(distinct_seq(hs.drop_last())) by {
            assert(forall|i: int|
                0 <= i < hs.drop_last().len() ==> hs.drop_last()[i] == #[trigger] hs[i]);
        }
        lemma_seqs_map_remove(hs.drop_last(), os.drop_last(), k);
        assert(hs.drop_last()[k] == hs[k]);
        assert(hs[k] != hs.last()) by {
            assert(hs[hs.len() - 1] == hs.last());
        }
        assert(seqs_map(nhs, nos) == seqs_map(hs.drop_last(), os.drop_last()).remove(
            hs[k],
        ).insert(hs.last(), os.last()));
        assert(seqs_map(hs.drop_last(), os.drop_last()).remove(hs[k]).insert(
            hs.last(),
            os.last(),
        ) =~= seqs_map(hs.drop_last(), os.drop_last()).insert(hs.last(), os.last()).remove(hs[k]));
    }
}

/// Consistent hash ring over a fixed 64-bit hasher, with `replicas` virtual
/// nodes per real node.
pub struct ConsistentHashRing {
    replicas: usize,
    ring: Vec<u64>,
    owners: Vec<String>,
}

impl ConsistentHashRing {
    /// The sorted virtual hashes, in ring order.
    pub closed spec fn hashes(&self) -> Seq<u64> {
        self.ring@
    }

    /// The owner name of each virtual hash, in ring order.
    pub closed spec fn owners(&self) -> Seq<Seq<char>> {
        self.owners@.map_values(|s: String| s@)
    }

    /// Virtual nodes per real node.
    pub closed spec fn spec_replicas(&self) -> nat {
        self.replicas as nat
    }

    /// Well-formed ring: hashes strictly sorted, one owner per hash.
    pub open spec fn wf(&self) -> bool {
        &&& strictly_sorted(self.hashes())
        &&& self.owners().len() == self.hashes().len()
    }

    /// The ring as a finite map from virtual hash to owner name.
    pub open spec fn model(&self) -> Map<u64, Seq<char>> {
        seqs_map(self.hashes(), self.owners())
    }

    /// Every well-formed ring's model maps each stored hash to its owner.
    pub proof fn lemma_model_entries(&self)
        requires
            self.wf(),
        ensures
            self.model().dom().finite(),
            self.model().len() == self.hashes().len(),
            forall|h: u64| self.model().dom().contains(h) <==> self.hashes().contains(h),
            forall|i: int|
                0 <= i < self.hashes().len() ==> self.model().dom().contains(
                    #[trigger] self.hashes()[i],
                ) && self.model()[self.hashes()[i]] == self.owners()[i],
    {
        lemma_seqs_map_dom(self.hashes(), self.owners());
        lemma_seqs_map_lookup(self.hashes(), self.owners());
        lemma_seqs_map_len(self.hashes(), self.owners());
    }

    pub fn new(replicas: usize) -> (r: Self)
        ensures
            r.wf(),
            r.model() === Map::empty(),
            r.spec_replicas() == replicas,
    {
        Self { replicas, ring: Vec::new(), owners: Vec::new() }
    }

    /// Removes every virtual node; the replica count is kept.
    pub fn clear(&mut self)
        ensures
            final(self).wf(),
            final(self).model() === Map::empty(),
            final(self).spec_replicas() == old(self).spec_replicas(),
    {
        self.ring.clear();
        self.owners.clear();
    }

    /// Number of virtual nodes on the ring.
    pub fn len(&self) -> (r: usize)
        requires
            self.wf(),
        ensures
            r == self.hashes().len(),
            r == self.model().len(),
    {
        proof {
            self.lemma_model_entries();
        }
        self.ring.len()
    }

    /// Adds `replicas` virtual nodes for `real_node`. On a virtual-hash
    /// collision the last writer wins.
    pub fn add_node(&mut self, real_node: &str)
        requires
            old(self).wf(),
        ensures
            final(self).wf(),
            final(self).spec_replicas() == old(self).spec_replicas(),
            final(self).model() == old(self).model().union_prefer_right(
                virt_entries(real_node@, old(self).spec_replicas()),
            ),
    {
        let replicas = self.replicas;
        let ghost m0 = self.model();
        for i in 0..replicas
            invariant
                self.wf(),
                self.replicas == replicas,
                self.model() == m0.union_prefer_right(virt_entries(real_node@, i as nat)),
        {
            let vid = virt_node_id(real_node, i);
            let h = xxhash64(vid.as_str());
            let ghost pre = self.model();
            let pos = lower_bound(&self.ring, h);
            if pos < self.ring.len() && self.ring[pos] == h {
                // same virtual point again: the new owner replaces the old
                let ghost hs = self.hashes();
                let ghost os = self.owners();
                self.ring.remove(pos);
                self.owners.remove(pos);
                proof {
                    assert(self.hashes() =~= hs.remove(pos as int));
                    assert(self.owners() =~= os.remove(pos as int));
                    lemma_seqs_map_remove(hs, os, pos as int);
                }
                let ghost hs2 = self.hashes();
                let ghost os2 = self.owners();
                self.ring.insert(pos, h);
                self.owners.insert(pos, real_node.to_owned());
                proof {
                    assert(self.hashes() =~= hs2.insert(pos as int, h));
                    assert(self.owners() =~= os2.insert(pos as int, real_node@));
                    assert(!hs2.contains(h)) by {
                        if hs2.contains(h) {
                            let j = choose|j: int| 0 <= j < hs2.len() && hs2[j] == h;
                            if j < pos {
                                assert(hs[j] == hs2[j]);
                                assert(hs[j] < hs[pos as int]);
                            } else {
                                assert(hs[j + 1] == hs2[j]);
                                assert(hs[pos as int] < hs[j + 1]);
                            }
                        }
                    }
                    lemma_seqs_map_insert(hs2, os2, pos as int, h, real_node@);
                    assert(self.model() =~= pre.insert(h, real_node@));
                }
            } else {
                // a fresh virtual point: insert keeping the ring sorted
                let ghost hs = self.hashes();
                let ghost os = self.owners();
                self.ring.insert(pos, h);
                self.owners.insert(pos, real_node.to_owned());
                proof {
                    assert(self.hashes() =~= hs.insert(pos as int, h));
                    assert(self.owners() =~= os.insert(pos as int, real_node@));
                    assert(!hs.contains(h)) by {
                        if hs.contains(h) {
                            let j = choose|j: int| 0 <= j < hs.len() && hs[j] == h;
                            if j < pos {
                                assert(hs[j] < h);
                            } else {
                                assert(h <= hs[j]);
                                if pos < hs.len() {
                                    assert(hs[pos as int] != h);
                                }
                                assert(hs[j] != h);
                            }
                        }
                    }
                    lemma_seqs_map_insert(hs, os, pos as int, h, real_node@);
                    assert(self.model() =~= pre.insert(h, real_node@));
                    assert(strictly_sorted(self.hashes())) by {
                        let nhs = self.hashes();
                        assert forall|a: int, b: int| 0 <= a < b < nhs.len() implies nhs[a]
                            < nhs[b] by {
                            if a == pos {
                                assert(nhs[b] == hs[b - 1] && h <= hs[b - 1] && hs[b - 1] != h);
                            } else if b == pos {
                                assert(nhs[a] == hs[a] && hs[a] < h);
                            } else if a < pos && b > pos {
                                assert(nhs[a] == hs[a] && nhs[b] == hs[b - 1]);
                                assert(hs[a] < h);
                                assert(h <= hs[b - 1] && hs[b - 1] != h);
                            } else if b < pos {
                                assert(nhs[a] == hs[a] && nhs[b] == hs[b]);
                            } else {
                                assert(nhs[a] == hs[a - 1] && nhs[b] == hs[b - 1]);
                            }
                        }
                    }
                }
            }
            proof {
                assert(virt_entries(real_node@, (i + 1) as nat) == virt_entries(
                    real_node@,
                    i as nat,
                ).insert(h, real_node@));
                assert(self.model() =~= m0.union_prefer_right(
                    virt_entries(real_node@, (i + 1) as nat),
                ));
            }
        }
    }
}

/// There is a ring point at or above `h`.
pub open spec fn has_point_at_or_above(m: Map<u64, Seq<char>>, h: u64) -> bool {
    exists|k: u64| m.dom().contains(k) && k >= h
}

/// `k` is the ring point that serves hash `h`: the least point at or above
/// `h`, or the least point overall when none is.
pub open spec fn serving_point(m: Map<u64, Seq<char>>, h: u64, k: u64) -> bool {
    &&& m.dom().contains(k)
    &&& if has_point_at_or_above(m, h) {
        k >= h && forall|j: u64| m.dom().contains(j) && j >= h ==> k <= j
    } else {
        forall|j: u64| m.dom().contains(j) ==> k <= j
    }
}

/// The serving point of a hash is unique, so lookups with no mutation in
/// between name the same owner.
pub proof fn lemma_serving_point_unique(m: Map<u64, Seq<char>>, h: u64, k1: u64, k2: u64)
    requires
        serving_point(m, h, k1),
        serving_point(m, h, k2),
    ensures
        k1 == k2,
{
}

impl ConsistentHashRing {
    /// The real node serving `key`: the owner of the least virtual hash at
    /// or above `hash_of(key)`, wrapping to the smallest virtual hash; no
    /// node on an empty ring.
    pub fn get_node(&self, key: &str) -> (r: Option<String>)
        requires
            self.wf(),
        ensures
            r is None <==> self.hashes().len() == 0,
            r matches Some(owner) ==> exists|k: u64|
                #[trigger] serving_point(self.model(), hash_of(key@), k) && owner@
                    == self.model()[k],
    {
        if self.ring.len() == 0 {
            return None;
        }
        let h = xxhash64(key);
        let pos = lower_bound(&self.ring, h);
        let sel = if pos < self.ring.len() {
            pos
        } else {
            0
        };
        let owner = self.owners[sel].clone();
        proof {
            self.lemma_model_entries();
            let m = self.model();
            let hs = self.hashes();
            let k = hs[sel as int];
            if pos < hs.len() {
                assert(h <= k);
                assert forall|j: u64| m.dom().contains(j) && j >= h implies k <= j by {
                    assert(hs.contains(j));
                    let i = choose|i: int| 0 <= i < hs.len() && hs[i] == j;
                    if i < pos {
                        assert(hs[i] < h);
                    } else if i > pos {
                        assert(hs[pos as int] < hs[i]);
                    }
                }
                assert(serving_point(m, h, k));
            } else {
                assert(!has_point_at_or_above(m, h)) by {
                    if has_point_at_or_above(m, h) {
                        let j = choose|j: u64| m.dom().contains(j) && j >= h;
                        assert(hs.contains(j));
                        let i = choose|i: int| 0 <= i < hs.len() && hs[i] == j;
                        assert(hs[i] < h);
                    }
                }
                assert forall|j: u64| m.dom().contains(j) implies k <= j by {
                    assert(hs.contains(j));
                    let i = choose|i: int| 0 <= i < hs.len() && hs[i] == j;
                    if i > 0 {
                        assert(hs[0] < hs[i]);
                    }
                }
                assert(serving_point(m, h, k));
            }
            assert(owner@ == m[k]);
        }
        Some(owner)
    }

    /// Removes the virtual nodes of `real_node` from the ring. Entries whose
    /// virtual hash is absent are skipped.
    pub fn remove_node(&mut self, real_node: &str)
        requires
            old(self).wf(),
        ensures
            final(self).wf(),
            final(self).spec_replicas() == old(self).spec_replicas(),
            final(self).model() == old(self).model().remove_keys(
                virt_hash_set(real_node@, old(self).spec_replicas()),
            ),
    {
        let replicas = self.replicas;
        let ghost m0 = self.model();
        for i in 0..replicas
            invariant
                self.wf(),
                self.replicas == replicas,
                self.model() == m0.remove_keys(virt_hash_set(real_node@, i as nat)),
        {
            let vid = virt_node_id(real_node, i);
            let h = xxhash64(vid.as_str());
            let ghost pre = self.model();
            let pos = lower_bound(&self.ring, h);
            if pos < self.ring.len() && self.ring[pos] == h {
                let ghost hs = self.hashes();
                let ghost os = self.owners();
                self.ring.remove(pos);
                self.owners.remove(pos);
                proof {
                    assert(self.hashes() =~= hs.remove(pos as int));
                    assert(self.owners() =~= os.remove(pos as int));
                    lemma_seqs_map_remove(hs, os, pos as int);
                    assert(self.model() =~= pre.remove(h));
                    assert(strictly_sorted(self.hashes())) by {
                        let nhs = self.hashes();
                        assert forall|a: int, b: int| 0 <= a < b < nhs.len() implies nhs[a]
                            < nhs[b] by {
                            if b < pos {
                                assert(nhs[a] == hs[a] && nhs[b] == hs[b]);
                            } else if a < pos {
                                assert(nhs[a] == hs[a] && nhs[b] == hs[b + 1]);
                            } else {
                                assert(nhs[a] == hs[a + 1] && nhs[b] == hs[b + 1]);
                            }
                        }
                    }
                }
            } else {
                proof {
                    self.lemma_model_entries();
                    assert(!pre.dom().contains(h)) by {
                        if pre.dom().contains(h) {
                            let hs = self.hashes();
                            assert(hs.contains(h));
                            let j = choose|j: int| 0 <= j < hs.len() && hs[j] == h;
                            if j < pos {
                                assert(hs[j] < h);
                            } else {
                                if pos < hs.len() {
                                    assert(hs[pos as int] != h);
                                }
                                if j > pos {
                                    assert(hs[pos as int] < hs[j]);
                                }
                                assert(hs[j] != h);
                            }
                        }
                    }
                    assert(self.model() =~= pre.remove(h));
                }
            }
            proof {
                assert(virt_hash_set(real_node@, (i + 1) as nat) == virt_hash_set(
                    real_node@,
                    i as nat,
                ).insert(h));
                assert(self.model() =~= m0.remove_keys(
                    virt_hash_set(real_node@, (i + 1) as nat),
                ));
            }
        }
    }
}

/// Law: adding a node whose virtual hashes are all absent from the ring and
/// then removing it restores the ring contents exactly. (On a virtual-hash
/// collision the add overwrites the older owner, which the remove cannot
/// restore; such collisions void the identity.)
pub proof fn lemma_add_remove_node_identity(m: Map<u64, Seq<char>>, name: Seq<char>, replicas: nat)
    requires
        forall|i: nat| i < replicas ==> !m.dom().contains(#[trigger] hash_of(virt_id(name, i))),
    ensures
        m.union_prefer_right(virt_entries(name, replicas)).remove_keys(
            virt_hash_set(name, replicas),
        ) == m,
{
    lemma_virt_hash_set_members(name, replicas);
    lemma_virt_entries_members(name, replicas);
    let vhs = virt_hash_set(name, replicas);
    let m2 = m.union_prefer_right(virt_entries(name, replicas)).remove_keys(vhs);
    assert forall|k: u64| m.dom().contains(k) implies m2.dom().contains(k) && m2[k] == m[k] by {
        assert(!vhs.contains(k)) by {
            if vhs.contains(k) {
                let i = choose|i: nat| i < replicas && k == hash_of(virt_id(name, i));
                assert(!m.dom().contains(hash_of(virt_id(name, i))));
            }
        }
    }
    assert(m2 =~= m);
}

/// Law: adding a node with `replicas` pairwise-distinct virtual hashes, all
/// previously absent, grows the ring by exactly `replicas` entries, each
/// owned by the node.
pub proof fn lemma_add_node_entry_count(m: Map<u64, Seq<char>>, name: Seq<char>, replicas: nat)
    requires
        m.dom().finite(),
        forall|i: nat| i < replicas ==> !m.dom().contains(#[trigger] hash_of(virt_id(name, i))),
        forall|i: nat, j: nat|
            #![trigger virt_id(name, i), virt_id(name, j)]
            i < j < replicas ==> hash_of(virt_id(name, i)) != hash_of(virt_id(name, j)),
    ensures
        m.union_prefer_right(virt_entries(name, replicas)).dom().finite(),
        m.union_prefer_right(virt_entries(name, replicas)).len() == m.len() + replicas,
        forall|i: nat|
            i < replicas ==> m.union_prefer_right(virt_entries(name, replicas)).dom().contains(
                #[trigger] hash_of(virt_id(name, i)),
            ) && m.union_prefer_right(virt_entries(name, replicas))[hash_of(virt_id(name, i))]
                == name,
    decreases replicas,
{
    lemma_virt_entries_members(name, replicas);
    lemma_virt_hash_set_members(name, replicas);
    if replicas == 0 {
        assert(m.union_prefer_right(virt_entries(name, 0)) =~= m);
    } else {
        let prev = (replicas - 1) as nat;
        lemma_add_node_entry_count(m, name, prev);
        lemma_virt_entries_members(name, prev);
        lemma_virt_hash_set_members(name, prev);
        let h = hash_of(virt_id(name, prev));
        let m_prev = m.union_prefer_right(virt_entries(name, prev));
        let m_now = m.union_prefer_right(virt_entries(name, replicas));
        assert(m_now =~= m_prev.insert(h, name));
        assert(!m_prev.dom().contains(h)) by {
            if virt_hash_set(name, prev).contains(h) {
                let i = choose|i: nat| i < prev && h == hash_of(virt_id(name, i));
                assert(hash_of(virt_id(name, i)) != hash_of(virt_id(name, prev)));
            }
        }
        assert(m_now.dom() =~= m_prev.dom().insert(h));
        assert(m_now.len() == m_prev.len() + 1) by {
            vstd::set::axiom_set_insert_len(m_prev.dom(), h);
        }
        assert forall|i: nat| i < replicas implies m_now.dom().contains(
            #[trigger] hash_of(virt_id(name, i)),
        ) && m_now[hash_of(virt_id(name, i))] == name by {
            assert(virt_hash_set(name, replicas).contains(hash_of(virt_id(name, i))));
        }
    }
}

/// Builds the `"<name>-<i>"` identifier of a virtual node.
fn virt_node_id(name: &str, i: usize) -> (r: String)
    ensures
        r@ == virt_id(name@, i as nat),
{
    let mut s = name.to_owned();
    push_char(&mut s, '-');
    let digits = u64_to_string(i as u64);
    s.append(digits.as_str());
    proof {
        assert(s@ =~= virt_id(name@, i as nat));
    }
    s
}

/// First position whose hash is at least `h`; `v.len()` when none is.
fn lower_bound(v: &Vec<u64>, h: u64) -> (r: usize)
    requires
        strictly_sorted(v@),
    ensures
        r <= v@.len(),
        forall|i: int| 0 <= i < r ==> v@[i] < h,
        forall|i: int| r <= i < v@.len() ==> h <= v@[i],
{
    let mut lo: usize = 0;
    let mut hi: usize = v.len();
    while lo < hi
        invariant
            lo <= hi <= v@.len(),
            strictly_sorted(v@),
            forall|i: int| 0 <= i < lo ==> v@[i] < h,
            forall|i: int| hi <= i < v@.len() ==> h <= v@[i],
        decreases hi - lo,
    {
        let mid = lo + (hi - lo) / 2;
        if v[mid] < h {
            lo = mid + 1;
            proof {
                assert forall|i: int| 0 <= i < lo implies v@[i] < h by {
                    if i < mid {
                        assert(v@[i] < v@[mid as int]);
                    }
                }
            }
        } else {
            hi = mid;
            proof {
                assert forall|i: int| hi <= i < v@.len() implies h <= v@[i] by {
                    if i > mid {
                        assert(v@[mid as int] < v@[i]);
                    }
                }
            }
        }
    }
    lo
}

} // verus!
