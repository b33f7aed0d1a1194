//! CSG objects as GPU assets, and the manager that stages and commits them.
//!
//! Each asset kind has its own named cache; the only kind is CSG objects.
use vstd::prelude::*;
use crate::asset_map::AssetMap;
use crate::binarize::{CsgError, MAX_NODES};
use crate::buffer::{capacity_after, spec_plan_update, CsgBuffer, GpuUpload};
use crate::csg::{Object, binarized, opt_size};
use crate::encode::{encode_object, encoding_of, word_bytes, ByteOrder, EncodedCsg};

verus! {

/// A CSG object ready for the GPU: the tree, its encoding, and the state of
/// the device buffers that hold it.
pub struct CsgObjectAsset {
    csg: Object,
    records: Vec<u8>,
    node_count: u32,
    order: ByteOrder,
    buffer: CsgBuffer,
}

fn copy_bytes(src: &Vec<u8>) -> (r: Vec<u8>)
    ensures
        r@ == src@,
{
    let mut r: Vec<u8> = Vec::new();
    let mut i: usize = 0;
    while i < src.len()
        invariant
            i <= src@.len(),
            r@ == src@.take(i as int),
        decreases src.len() - i,
    {
        r.push(src[i]);
        assert(src@.take(i + 1) =~= src@.take(i as int).push(src@[i as int]));
        i = i + 1;
    }
    assert(src@.take(i as int) =~= src@);
    r
}

impl CsgObjectAsset {
    pub closed spec fn spec_csg(self) -> Object {
        self.csg
    }

    pub closed spec fn spec_records(self) -> Seq<u8> {
        self.records@
    }

    pub closed spec fn spec_node_count(self) -> nat {
        self.node_count as nat
    }

    pub closed spec fn spec_order(self) -> ByteOrder {
        self.order
    }

    pub closed spec fn spec_buffer(self) -> CsgBuffer {
        self.buffer
    }

    /// The same asset with the given buffer state.
    pub closed spec fn with_buffer(self, buffer: CsgBuffer) -> CsgObjectAsset {
        CsgObjectAsset {
            csg: self.csg,
            records: self.records,
            node_count: self.node_count,
            order: self.order,
            buffer,
        }
    }

    pub proof fn lemma_with_buffer(self, buffer: CsgBuffer)
        ensures
            self.with_buffer(buffer).spec_csg() == self.spec_csg(),
            self.with_buffer(buffer).spec_records() == self.spec_records(),
            self.with_buffer(buffer).spec_node_count() == self.spec_node_count(),
            self.with_buffer(buffer).spec_order() == self.spec_order(),
            self.with_buffer(buffer).spec_buffer() == buffer,
    {
    }

    pub proof fn lemma_node_count_bound(self)
        ensures
            self.spec_node_count() <= MAX_NODES,
    {
    }

    /// Encodes `csg`. Nothing is on the device yet: the buffers are created
    /// when the asset is first committed.
    pub fn new(csg: Object, order: ByteOrder) -> (r: Result<CsgObjectAsset, CsgError>)
        ensures
            match r {
                Ok(a) => {
                    let (records, count) = encoding_of(binarized(csg), order);
                    &&& opt_size(binarized(csg)) <= MAX_NODES
                    &&& a.spec_csg() == csg
                    &&& a.spec_records() == records
                    &&& a.spec_node_count() == count
                    &&& a.spec_order() == order
                    &&& a.spec_buffer() == CsgBuffer::spec_unallocated()
                },
                Err(e) => e == CsgError::TooManyNodes && opt_size(binarized(csg)) > MAX_NODES,
            },
    {
        match encode_object(&csg, order) {
            Err(e) => Err(e),
            Ok(encoded) => {
                proof {
                    crate::encode::lemma_encoding_size(binarized(csg), order);
                }
                Ok(
                    CsgObjectAsset {
                        csg,
                        records: encoded.records,
                        node_count: encoded.node_count,
                        order,
                        buffer: CsgBuffer::unallocated(),
                    },
                )
            },
        }
    }

    /// The tree this asset was built from.
    pub fn csg(&self) -> (r: &Object)
        ensures
            *r == self.spec_csg(),
    {
        &self.csg
    }

    /// The state of the device buffers.
    pub fn buffer(&self) -> (r: CsgBuffer)
        ensures
            r == self.spec_buffer(),
    {
        self.buffer
    }

    /// Number of encoded nodes.
    pub fn node_count(&self) -> (r: u32)
        ensures
            r == self.spec_node_count(),
    {
        self.node_count
    }

    /// Writes the encoding into the buffers, taking over `buffer` as the
    /// device state that the write starts from.
    pub fn refresh(&mut self, buffer: CsgBuffer) -> (r: GpuUpload)
        ensures
            *final(self) == old(self).with_buffer(
                buffer.after_write(old(self).spec_node_count()),
            ),
            r.action == spec_plan_update(buffer.spec_capacity(), old(self).spec_node_count()),
            r.records@ == old(self).spec_records(),
            r.header@ == word_bytes(old(self).spec_node_count() as u32, old(self).spec_order()),
    {
        let mut b = buffer;
        let encoded = EncodedCsg { records: copy_bytes(&self.records), node_count: self.node_count };
        let u = b.write_encoded(encoded, self.order);
        self.buffer = b;
        u
    }
}

/// The device state that a newly committed asset under a key starts from:
/// that of the asset it replaces, or nothing allocated.
pub open spec fn previous_buffer(resident: Map<u64, CsgObjectAsset>, key: u64) -> CsgBuffer {
    if resident.contains_key(key) {
        resident[key].spec_buffer()
    } else {
        CsgBuffer::spec_unallocated()
    }
}

/// The resident value that a commit makes of `staged` under `key`.
pub open spec fn committed_asset(
    resident: Map<u64, CsgObjectAsset>,
    key: u64,
    staged: CsgObjectAsset,
) -> CsgObjectAsset {
    staged.with_buffer(previous_buffer(resident, key).after_write(staged.spec_node_count()))
}

/// The resident map after committing `staged` over `resident`.
pub open spec fn committed(
    resident: Map<u64, CsgObjectAsset>,
    staged: Map<u64, CsgObjectAsset>,
) -> Map<u64, CsgObjectAsset> {
    Map::new(
        |k: u64| resident.contains_key(k) || staged.contains_key(k),
        |k: u64|
            if staged.contains_key(k) {
                committed_asset(resident, k, staged[k])
            } else {
                resident[k]
            },
    )
}

/// The upload that committing `staged` under `key` asks of the device.
pub open spec fn is_commit_upload(
    resident: Map<u64, CsgObjectAsset>,
    key: u64,
    staged: CsgObjectAsset,
    u: GpuUpload,
) -> bool {
    &&& u.action == spec_plan_update(
        previous_buffer(resident, key).spec_capacity(),
        staged.spec_node_count(),
    )
    &&& u.records@ == staged.spec_records()
    &&& u.header@ == word_bytes(staged.spec_node_count() as u32, staged.spec_order())
}

/// Loads assets, keeps them staged, and commits them once per frame.
pub struct AssetManager {
    csg_objects: AssetMap<CsgObjectAsset>,
}

impl AssetManager {
    pub closed spec fn wf(&self) -> bool {
        self.csg_objects.wf()
    }

    /// The committed CSG assets, visible to the render pass.
    pub closed spec fn resident(&self) -> Map<u64, CsgObjectAsset> {
        self.csg_objects.resident()
    }

    /// The CSG assets loaded since the last commit.
    pub closed spec fn staged(&self) -> Map<u64, CsgObjectAsset> {
        self.csg_objects.staged()
    }

    pub fn new() -> (r: AssetManager)
        ensures
            r.wf(),
            r.resident() == Map::<u64, CsgObjectAsset>::empty(),
            r.staged() == Map::<u64, CsgObjectAsset>::empty(),
    {
        AssetManager { csg_objects: AssetMap::new() }
    }

    /// Stages `asset` under `key`; it is not visible to `get` until the next
    /// `reload`. A value staged before under `key` is replaced and returned.
    pub fn load(&mut self, key: u64, asset: CsgObjectAsset) -> (r: Option<CsgObjectAsset>)
        requires
            old(self).wf(),
        ensures
            final(self).wf(),
            final(self).resident() == old(self).resident(),
            final(self).staged() == old(self).staged().insert(key, asset),
            r == old(self).staged().get(key),
    {
        self.csg_objects.load(key, asset)
    }

    /// The committed asset under `key`.
    pub fn get(&self, key: u64) -> (r: Option<&CsgObjectAsset>)
        ensures
            match r {
                Some(v) => self.resident().contains_key(key) && self.resident()[key] == *v,
                None => !self.resident().contains_key(key),
            },
    {
        self.csg_objects.get(key)
    }

    /// Whether assets wait for a commit.
    pub fn dirty(&self) -> (r: bool)
        requires
            self.wf(),
        ensures
            r == (self.staged().dom().len() > 0),
    {
        self.csg_objects.dirty()
    }

    /// Commits every staged asset: each is written into the device buffers of
    /// the asset it replaces (or into new ones) and becomes resident. Returns
    /// the device work, one upload per committed key. With nothing staged,
    /// nothing changes and nothing is returned.
    pub fn reload(&mut self) -> (r: Vec<(u64, GpuUpload)>)
        requires
            old(self).wf(),
        ensures
            final(self).wf(),
            final(self).resident() == committed(old(self).resident(), old(self).staged()),
            final(self).staged() == Map::<u64, CsgObjectAsset>::empty(),
            forall|i: int, j: int|
                0 <= i < j < r@.len() ==> #[trigger] r@[i].0 != #[trigger] r@[j].0,
            forall|i: int|
                0 <= i < r@.len() ==> old(self).staged().contains_key(#[trigger] r@[i].0)
                    && is_commit_upload(
                    old(self).resident(),
                    r@[i].0,
                    old(self).staged()[r@[i].0],
                    r@[i].1,
                ),
            forall|k: u64|
                old(self).staged().contains_key(k) ==> exists|i: int|
                    0 <= i < r@.len() && #[trigger] r@[i].0 == k,
    {
        let ghost res0 = self.csg_objects.resident();
        let ghost staged0 = self.csg_objects.staged();
        let mut pending = self.csg_objects.take_staged();
        let ghost all = pending@;
        let ghost n = all.len();
        let mut uploads: Vec<(u64, GpuUpload)> = Vec::new();
        while pending.len() > 0
            invariant
                self.csg_objects.wf(),
                self.csg_objects.staged() == Map::<u64, CsgObjectAsset>::empty(),
                forall|i: int, j: int|
                    0 <= i < j < all.len() ==> #[trigger] all[i].0 != #[trigger] all[j].0,
                forall|i: int|
                    0 <= i < all.len() ==> staged0.contains_key(#[trigger] all[i].0)
                        && staged0[all[i].0] == all[i].1,
                forall|k: u64|
                    staged0.contains_key(k) ==> exists|i: int|
                        0 <= i < all.len() && #[trigger] all[i].0 == k,
                pending@ == all.subrange(0, pending@.len() as int),
                pending@.len() + uploads@.len() == n,
                n == all.len(),
                forall|i: int|
                    0 <= i < uploads@.len() ==> #[trigger] uploads@[i].0 == all[n - 1 - i].0,
                forall|i: int|
                    0 <= i < uploads@.len() ==> is_commit_upload(
                        res0,
                        #[trigger] uploads@[i].0,
                        staged0[uploads@[i].0],
                        uploads@[i].1,
                    ),
                forall|k: u64|
                    #[trigger] self.csg_objects.resident().contains_key(k) <==> (res0.contains_key(
                        k,
                    ) || exists|i: int| pending@.len() <= i < n && #[trigger] all[i].0 == k),
                forall|i: int|
                    pending@.len() <= i < n ==> self.csg_objects.resident()[#[trigger] all[i].0]
                        == committed_asset(res0, all[i].0, all[i].1),
                forall|k: u64|
                    #![trigger self.csg_objects.resident()[k]]
                    res0.contains_key(k) && (forall|i: int|
                        pending@.len() <= i < n ==> #[trigger] all[i].0 != k)
                        ==> self.csg_objects.resident()[k] == res0[k],
            decreases pending@.len(),
        {
            let ghost m = pending@.len();
            let (key, mut asset) = pending.pop().unwrap();
            assert(all[m - 1] == (key, asset)) by {
                assert(all.subrange(0, m as int)[m - 1] == all[m - 1]);
            }
            let ghost resident_before = self.csg_objects.resident();
            proof {
                if res0.contains_key(key) {
                    assert forall|i: int| m <= i < n implies #[trigger] all[i].0 != key by {
                        assert(all[m - 1].0 != all[i].0);
                    }
                }
                assert(resident_before.contains_key(key) == res0.contains_key(key)) by {
                    if resident_before.contains_key(key) && !res0.contains_key(key) {
                        let i = choose|i: int| m <= i < n && #[trigger] all[i].0 == key;
                        assert(all[m - 1].0 != all[i].0);
                    }
                }
            }
            let previous = self.csg_objects.evict(key);
            let start = match previous {
                Some(p) => p.buffer(),
                None => CsgBuffer::unallocated(),
            };
            let upload = asset.refresh(start);
            self.csg_objects.commit(key, asset);
            uploads.push((key, upload));
            proof {
                let res = self.csg_objects.resident();
                assert forall|k: u64| #[trigger]
                    res.contains_key(k) <==> (res0.contains_key(k) || exists|i: int|
                        pending@.len() <= i < n && #[trigger] all[i].0 == k) by {
                    if k == key {
                        assert(all[m - 1].0 == k);
                    } else if exists|i: int| pending@.len() <= i < n && #[trigger] all[i].0 == k {
                        let i = choose|i: int| pending@.len() <= i < n && #[trigger] all[i].0 == k;
                        if i != m - 1 {
                            assert(resident_before.contains_key(k));
                        }
                    }
                }
                assert forall|i: int| pending@.len() <= i < n implies res[#[trigger] all[i].0]
                    == committed_asset(res0, all[i].0, all[i].1) by {
                    if i != m - 1 {
                        assert(all[i].0 != all[m - 1].0);
                    }
                }
                assert forall|i: int|
                    0 <= i < uploads@.len() implies #[trigger] uploads@[i].0 == all[n - 1 - i].0 by {
                }
            }
        }
        proof {
            let res = self.csg_objects.resident();
            let target = committed(res0, staged0);
            assert(res =~= target) by {
                assert forall|k: u64| res.contains_key(k) == target.contains_key(k) by {
                    if staged0.contains_key(k) {
                        let i = choose|i: int| 0 <= i < n && #[trigger] all[i].0 == k;
                    }
                }
                assert forall|k: u64| #[trigger] res.contains_key(k) implies res[k] == target[k] by {
                    if staged0.contains_key(k) {
                        let i = choose|i: int| 0 <= i < n && #[trigger] all[i].0 == k;
                    } else {
                        assert forall|i: int| 0 <= i < n implies #[trigger] all[i].0 != k by {}
                    }
                }
            }
            assert forall|i: int, j: int|
                0 <= i < j < uploads@.len() implies #[trigger] uploads@[i].0
                != #[trigger] uploads@[j].0 by {
                assert(all[n - 1 - i].0 != all[n - 1 - j].0);
            }
            assert forall|k: u64| staged0.contains_key(k) implies exists|i: int|
                0 <= i < uploads@.len() && #[trigger] uploads@[i].0 == k by {
                let j = choose|j: int| 0 <= j < n && #[trigger] all[j].0 == k;
                assert(uploads@[n - 1 - j].0 == k);
            }
        }
        uploads
    }
}

/// Deferred commit. Staging `v` under `key` changes nothing that readers
/// see. After the commit, `key` holds `v` in its uploaded form: the same tree
/// and encoding, with the device state of the asset it replaces (or a new
/// allocation) updated for its node count. Of two values staged under one key
/// before a commit, only the second becomes resident. Keys that were not
/// staged keep their resident values.
pub proof fn lemma_deferred_commit(
    resident: Map<u64, CsgObjectAsset>,
    staged: Map<u64, CsgObjectAsset>,
    key: u64,
    v1: CsgObjectAsset,
    v2: CsgObjectAsset,
)
    ensures
        committed(resident, staged.insert(key, v1)).contains_key(key),
        committed(resident, staged.insert(key, v1))[key] == committed_asset(resident, key, v1),
        committed_asset(resident, key, v1).spec_csg() == v1.spec_csg(),
        committed_asset(resident, key, v1).spec_records() == v1.spec_records(),
        committed_asset(resident, key, v1).spec_node_count() == v1.spec_node_count(),
        committed_asset(resident, key, v1).spec_buffer() == previous_buffer(
            resident,
            key,
        ).after_write(v1.spec_node_count()),
        committed_asset(resident, key, v1).spec_buffer().spec_capacity() == capacity_after(
            previous_buffer(resident, key).spec_capacity(),
            v1.spec_node_count(),
        ),
        committed_asset(resident, key, v1).spec_buffer().spec_node_count() == v1.spec_node_count(),
        committed(resident, staged.insert(key, v1).insert(key, v2))[key] == committed_asset(
            resident,
            key,
            v2,
        ),
        forall|k: u64|
            #![trigger committed(resident, staged)[k]]
            resident.contains_key(k) && !staged.contains_key(k) ==> committed(resident, staged)[k]
                == resident[k],
        committed(resident, Map::<u64, CsgObjectAsset>::empty()) == resident,
{
    v1.lemma_with_buffer(previous_buffer(resident, key).after_write(v1.spec_node_count()));
    v1.lemma_node_count_bound();
    previous_buffer(resident, key).lemma_after_write(v1.spec_node_count());
    assert(staged.insert(key, v1).insert(key, v2) =~= staged.insert(key, v2));
    assert(committed(resident, Map::<u64, CsgObjectAsset>::empty()) =~= resident);
}

} // verus!
