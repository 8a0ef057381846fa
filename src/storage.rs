use vstd::prelude::*;

use crate::error::ErrorKind;
use crate::lump::{aligned_size, LumpData, LumpDataView, LumpId, FOOTER_SIZE};

verus! {

/// One past the largest lump id, as an integer bound of the id space.
pub open spec fn id_limit() -> int {
    u128::MAX as int + 1
}

/// A stored lump as the contracts see it.
pub ghost struct LumpEntry {
    pub id: u128,
    pub data: LumpDataView,
}

/// The state of a storage: its lumps in ascending id order, its geometry,
/// and whether its journal holds records not yet written to the backing memory.
pub ghost struct StorageView {
    pub lumps: Seq<LumpEntry>,
    pub block_size: u16,
    pub capacity: u64,
    pub dirty: bool,
}

/// Metadata of a stored lump.
#[derive(Clone, Copy, Debug, PartialEq, Eq, Structural)]
pub struct LumpHeader {
    pub data_size: u64,
    pub embedded: bool,
}

pub open spec fn in_range(id: u128, lo: int, hi: int) -> bool {
    lo <= id && id < hi
}

/// Bytes of the data region that `d` occupies; embedded data occupies none.
pub open spec fn footprint(d: LumpDataView, block_size: nat) -> nat {
    if d.embedded {
        0
    } else {
        aligned_size(d.bytes.len(), block_size)
    }
}

/// Data-region bytes used by the lumps of `s` whose ids lie in `[lo, hi)`.
pub open spec fn usage_in(s: Seq<LumpEntry>, lo: int, hi: int, block_size: nat) -> nat
    decreases s.len(),
{
    if s.len() == 0 {
        0
    } else {
        usage_in(s.drop_last(), lo, hi, block_size) + if in_range(s.last().id, lo, hi) {
            footprint(s.last().data, block_size)
        } else {
            0
        }
    }
}

/// The ids of the lumps of `s` that lie in `[lo, hi)`, in the order of `s`.
pub open spec fn ids_in(s: Seq<LumpEntry>, lo: int, hi: int) -> Seq<u128>
    decreases s.len(),
{
    if s.len() == 0 {
        Seq::empty()
    } else if in_range(s.last().id, lo, hi) {
        ids_in(s.drop_last(), lo, hi).push(s.last().id)
    } else {
        ids_in(s.drop_last(), lo, hi)
    }
}

/// The lumps of `s` whose ids lie outside `[lo, hi)`.
pub open spec fn without(s: Seq<LumpEntry>, lo: int, hi: int) -> Seq<LumpEntry>
    decreases s.len(),
{
    if s.len() == 0 {
        Seq::empty()
    } else if in_range(s.last().id, lo, hi) {
        without(s.drop_last(), lo, hi)
    } else {
        without(s.drop_last(), lo, hi).push(s.last())
    }
}

pub open spec fn sorted(s: Seq<LumpEntry>) -> bool {
    forall|i: int, j: int| 0 <= i < j < s.len() ==> s[i].id < s[j].id
}

pub open spec fn sorted_ids(s: Seq<u128>) -> bool {
    forall|i: int, j: int| 0 <= i < j < s.len() ==> s[i] < s[j]
}

pub open spec fn has_id(s: Seq<LumpEntry>, id: u128) -> bool {
    exists|i: int| 0 <= i < s.len() && s[i].id == id
}

pub open spec fn total_usage(v: StorageView) -> nat {
    usage_in(v.lumps, 0, id_limit(), v.block_size as nat)
}

pub open spec fn entry_of(id: LumpId, d: LumpDataView) -> LumpEntry {
    LumpEntry { id: id.id, data: d }
}

/// The lumps after storing `d` under `id`: `d` replaces the lump of that id, or
/// is inserted where the ascending order puts it.
pub open spec fn stored_after_put(v: StorageView, w: StorageView, id: u128, d: LumpDataView) -> bool {
    let e = LumpEntry { id, data: d };
    &&& sorted(w.lumps)
    &&& if has_id(v.lumps, id) {
        exists|k: int| 0 <= k < v.lumps.len() && v.lumps[k].id == id && w.lumps == v.lumps.update(k, e)
    } else {
        exists|k: int| 0 <= k <= v.lumps.len() && w.lumps == v.lumps.insert(k, e)
    }
}

/// The lumps after removing the lump of `id`, if any.
pub open spec fn stored_after_delete(v: StorageView, w: StorageView, id: u128) -> bool {
    if has_id(v.lumps, id) {
        exists|k: int| 0 <= k < v.lumps.len() && v.lumps[k].id == id && w.lumps == v.lumps.remove(k)
    } else {
        w.lumps == v.lumps
    }
}

/// The usage of a set of lumps to which `d` was added under a fresh id.
pub open spec fn usage_delta(d: LumpDataView, id: u128, lo: int, hi: int, block_size: nat) -> nat {
    if in_range(id, lo, hi) {
        footprint(d, block_size)
    } else {
        0
    }
}

struct Lump {
    id: LumpId,
    data: LumpData,
}

/// An in-memory lump storage engine with block-aligned data region accounting
/// and a write-back journal.
pub struct Storage {
    entries: Vec<Lump>,
    block_size: u16,
    capacity: u64,
    used: u64,
    dirty: bool,
}

impl View for Storage {
    type V = StorageView;

    closed spec fn view(&self) -> StorageView {
        StorageView {
            lumps: self.entries@.map_values(|e: Lump| LumpEntry { id: e.id.id, data: e.data@ }),
            block_size: self.block_size,
            capacity: self.capacity,
            dirty: self.dirty,
        }
    }
}

} // verus!

verus! {

proof fn lemma_take_succ(s: Seq<LumpEntry>, i: int)
    requires
        0 <= i < s.len(),
    ensures
        s.take(i + 1).drop_last() == s.take(i),
        s.take(i + 1).last() == s[i],
{
    assert(s.take(i + 1).drop_last() =~= s.take(i));
}

proof fn lemma_usage_insert(s: Seq<LumpEntry>, k: int, x: LumpEntry, lo: int, hi: int, bs: nat)
    requires
        0 <= k <= s.len(),
    ensures
        usage_in(s.insert(k, x), lo, hi, bs) == usage_in(s, lo, hi, bs) + usage_delta(x.data, x.id, lo, hi, bs),
    decreases s.len(),
{
    if k == s.len() {
        assert(s.insert(k, x).drop_last() =~= s);
    } else {
        assert(s.insert(k, x).drop_last() =~= s.drop_last().insert(k, x));
        lemma_usage_insert(s.drop_last(), k, x, lo, hi, bs);
    }
}

proof fn lemma_usage_update(s: Seq<LumpEntry>, k: int, x: LumpEntry, lo: int, hi: int, bs: nat)
    requires
        0 <= k < s.len(),
    ensures
        usage_in(s.update(k, x), lo, hi, bs) + usage_delta(s[k].data, s[k].id, lo, hi, bs)
            == usage_in(s, lo, hi, bs) + usage_delta(x.data, x.id, lo, hi, bs),
    decreases s.len(),
{
    if k == s.len() - 1 {
        assert(s.update(k, x).drop_last() =~= s.drop_last());
    } else {
        assert(s.update(k, x).drop_last() =~= s.drop_last().update(k, x));
        lemma_usage_update(s.drop_last(), k, x, lo, hi, bs);
    }
}

proof fn lemma_usage_remove(s: Seq<LumpEntry>, k: int, lo: int, hi: int, bs: nat)
    requires
        0 <= k < s.len(),
    ensures
        usage_in(s.remove(k), lo, hi, bs) + usage_delta(s[k].data, s[k].id, lo, hi, bs)
            == usage_in(s, lo, hi, bs),
    decreases s.len(),
{
    if k == s.len() - 1 {
        assert(s.remove(k) =~= s.drop_last());
    } else {
        assert(s.remove(k).drop_last() =~= s.drop_last().remove(k));
        lemma_usage_remove(s.drop_last(), k, lo, hi, bs);
    }
}

proof fn lemma_usage_le_total(s: Seq<LumpEntry>, lo: int, hi: int, bs: nat)
    ensures
        usage_in(s, lo, hi, bs) <= usage_in(s, 0, id_limit(), bs),
    decreases s.len(),
{
    if s.len() > 0 {
        lemma_usage_le_total(s.drop_last(), lo, hi, bs);
    }
}

proof fn lemma_usage_take_le(s: Seq<LumpEntry>, i: int, lo: int, hi: int, bs: nat)
    requires
        0 <= i <= s.len(),
    ensures
        usage_in(s.take(i), lo, hi, bs) <= usage_in(s, lo, hi, bs),
    decreases s.len(),
{
    if i == s.len() {
        assert(s.take(i) =~= s);
    } else {
        assert(s.drop_last().take(i) =~= s.take(i));
        lemma_usage_take_le(s.drop_last(), i, lo, hi, bs);
    }
}

proof fn lemma_usage_split(s: Seq<LumpEntry>, lo: int, hi: int, bs: nat)
    ensures
        usage_in(without(s, lo, hi), 0, id_limit(), bs) + usage_in(s, lo, hi, bs)
            == usage_in(s, 0, id_limit(), bs),
    decreases s.len(),
{
    if s.len() > 0 {
        lemma_usage_split(s.drop_last(), lo, hi, bs);
        if !in_range(s.last().id, lo, hi) {
            let w = without(s.drop_last(), lo, hi);
            assert(w.push(s.last()).drop_last() =~= w);
        }
    }
}

proof fn lemma_sorted_unique(s: Seq<LumpEntry>, i: int, j: int)
    requires
        sorted(s),
        0 <= i < s.len(),
        0 <= j < s.len(),
        s[i].id == s[j].id,
    ensures
        i == j,
{
    if i < j {
        assert(s[i].id < s[j].id);
    } else if j < i {
        assert(s[j].id < s[i].id);
    }
}

fn footprint_of(d: &LumpData, block_size: u16) -> (r: u128)
    requires
        block_size > 0,
    ensures
        r == footprint(d@, block_size as nat),
        r <= d@.bytes.len() + 65537,
{
    if d.is_embedded() {
        0
    } else {
        let len = d.len() as u128;
        let bs = block_size as u128;
        let n = len + FOOTER_SIZE as u128 + bs - 1;
        assert((n / bs) * bs <= n) by (nonlinear_arith)
            requires
                bs > 0,
        ;
        (n / bs) * bs
    }
}

} // verus!

verus! {

/// Footprint of the lump that `id` names in `v`, or zero.
pub open spec fn replaced_footprint(v: StorageView, id: u128) -> nat {
    if has_id(v.lumps, id) {
        let k = choose|k: int| 0 <= k < v.lumps.len() && v.lumps[k].id == id;
        footprint(v.lumps[k].data, v.block_size as nat)
    } else {
        0
    }
}

/// Total data-region usage once `d` is stored under `id`.
pub open spec fn usage_after_put(v: StorageView, id: u128, d: LumpDataView) -> int {
    total_usage(v) - replaced_footprint(v, id) + footprint(d, v.block_size as nat)
}

/// Data allocated for another block size than the storage's.
pub open spec fn misaligned(v: StorageView, d: LumpDataView) -> bool {
    d.block_size is Some && d.block_size->Some_0 != v.block_size
}

impl Storage {
    pub closed spec fn inv(&self) -> bool {
        self.used == total_usage(self@)
    }

    /// Well-formedness: lumps in strictly ascending id order, a positive block
    /// size, and data-region usage within the capacity.
    pub open spec fn wf(&self) -> bool {
        &&& self.inv()
        &&& sorted(self@.lumps)
        &&& self@.block_size > 0
        &&& total_usage(self@) <= self@.capacity
    }

    /// An empty storage with blocks of `block_size` bytes and a data region of
    /// `capacity` bytes.
    pub fn new(block_size: u16, capacity: u64) -> (r: Result<Storage, ErrorKind>)
        ensures
            block_size > 0 <==> r is Ok,
            r is Err ==> r->Err_0 == ErrorKind::InvalidInput,
            r is Ok ==> r->Ok_0.wf() && r->Ok_0@ == (StorageView {
                lumps: Seq::empty(),
                block_size,
                capacity,
                dirty: false,
            }),
    {
        if block_size == 0 {
            return Err(ErrorKind::InvalidInput);
        }
        let s = Storage { entries: Vec::new(), block_size, capacity, used: 0, dirty: false };
        assert(s@.lumps =~= Seq::<LumpEntry>::empty());
        Ok(s)
    }

    pub fn block_size(&self) -> (r: u16)
        ensures
            r == self@.block_size,
    {
        self.block_size
    }

    pub fn capacity(&self) -> (r: u64)
        ensures
            r == self@.capacity,
    {
        self.capacity
    }

    /// Whether the journal holds records not yet written to the backing memory.
    pub fn is_dirty(&self) -> (r: bool)
        ensures
            r == self@.dirty,
    {
        self.dirty
    }

    /// Index of the first lump whose id is not below `id`.
    fn position(&self, id: u128) -> (k: usize)
        requires
            self.wf(),
        ensures
            k <= self@.lumps.len(),
            forall|j: int| 0 <= j < k ==> self@.lumps[j].id < id,
            forall|j: int| k <= j < self@.lumps.len() ==> self@.lumps[j].id >= id,
    {
        let mut k: usize = 0;
        while k < self.entries.len() && self.entries[k].id.id < id
            invariant
                self.wf(),
                k <= self@.lumps.len(),
                self@.lumps.len() == self.entries@.len(),
                forall|j: int| 0 <= j < k ==> self@.lumps[j].id < id,
            decreases self.entries@.len() - k,
        {
            assert(self@.lumps[k as int].id == self.entries@[k as int].id.id);
            k = k + 1;
        }
        if k < self.entries.len() {
            assert(self@.lumps[k as int].id == self.entries@[k as int].id.id);
            assert forall|j: int| k <= j < self@.lumps.len() implies self@.lumps[j].id >= id by {
                if j > k {
                    assert(self@.lumps[k as int].id < self@.lumps[j].id);
                }
            }
        }
        k
    }

    /// Stores `data` under `id`; returns whether `id` was new.
    pub fn put(&mut self, id: LumpId, data: LumpData) -> (r: Result<bool, ErrorKind>)
        requires
            old(self).wf(),
        ensures
            final(self).wf(),
            misaligned(old(self)@, data@) ==> r == Err::<bool, ErrorKind>(ErrorKind::InvalidInput),
            !misaligned(old(self)@, data@) && usage_after_put(old(self)@, id.id, data@) > old(self)@.capacity
                ==> r == Err::<bool, ErrorKind>(ErrorKind::StorageFull),
            r is Err ==> final(self)@ == old(self)@,
            !misaligned(old(self)@, data@) && usage_after_put(old(self)@, id.id, data@) <= old(self)@.capacity
                ==> {
                &&& r == Ok::<bool, ErrorKind>(!has_id(old(self)@.lumps, id.id))
                &&& stored_after_put(old(self)@, final(self)@, id.id, data@)
                &&& total_usage(final(self)@) == usage_after_put(old(self)@, id.id, data@)
                &&& final(self)@.block_size == old(self)@.block_size
                &&& final(self)@.capacity == old(self)@.capacity
                &&& final(self)@.dirty
            },
    {
        if let Some(b) = data.block_size() {
            if b != self.block_size {
                return Err(ErrorKind::InvalidInput);
            }
        }
        let ghost v = self@;
        let ghost e = entry_of(id, data@);
        let k = self.position(id.id);
        let exists = k < self.entries.len() && self.entries[k].id.id == id.id;
        let old_fp: u128 = if exists {
            footprint_of(&self.entries[k].data, self.block_size)
        } else {
            0
        };
        proof {
            if exists {
                assert(v.lumps[k as int].id == id.id);
                assert(v.lumps[k as int].data == self.entries@[k as int].data@);
                assert(has_id(v.lumps, id.id));
                let c = choose|c: int| 0 <= c < v.lumps.len() && v.lumps[c].id == id.id;
                lemma_sorted_unique(v.lumps, c, k as int);
                lemma_usage_remove(v.lumps, k as int, 0, id_limit(), v.block_size as nat);
            } else {
                assert forall|j: int| 0 <= j < v.lumps.len() implies v.lumps[j].id != id.id by {
                    if j >= k {
                        if j > k {
                            assert(v.lumps[k as int].id < v.lumps[j].id);
                        }
                        assert(v.lumps[k as int].id == self.entries@[k as int].id.id);
                    }
                }
            }
        }
        let new_fp = footprint_of(&data, self.block_size);
        let data_len = data.len();
        assert(old_fp <= self.used);
        let total = self.used as u128 - old_fp + new_fp;
        if total > self.capacity as u128 {
            return Err(ErrorKind::StorageFull);
        }
        let lump = Lump { id, data };
        if exists {
            proof {
                lemma_usage_update(v.lumps, k as int, e, 0, id_limit(), v.block_size as nat);
            }
            self.entries.set(k, lump);
            assert(self@.lumps =~= v.lumps.update(k as int, e));
        } else {
            proof {
                lemma_usage_insert(v.lumps, k as int, e, 0, id_limit(), v.block_size as nat);
            }
            self.entries.insert(k, lump);
            assert(self@.lumps =~= v.lumps.insert(k as int, e));
        }
        self.used = total as u64;
        self.dirty = true;
        Ok(!exists)
    }
}

} // verus!

verus! {

pub open spec fn ids_of(s: Seq<LumpId>) -> Seq<u128> {
    s.map_values(|x: LumpId| x.id)
}

impl Storage {
    /// Index of the lump of `id`, if there is one.
    fn find(&self, id: u128) -> (r: Option<usize>)
        requires
            self.wf(),
        ensures
            r is Some <==> has_id(self@.lumps, id),
            r is Some ==> r->Some_0 < self@.lumps.len() && self@.lumps[r->Some_0 as int].id == id,
    {
        let k = self.position(id);
        if k < self.entries.len() && self.entries[k].id.id == id {
            assert(self@.lumps[k as int].id == self.entries@[k as int].id.id);
            Some(k)
        } else {
            proof {
                if k < self.entries.len() {
                    assert(self@.lumps[k as int].id == self.entries@[k as int].id.id);
                }
                assert forall|j: int| 0 <= j < self@.lumps.len() implies self@.lumps[j].id != id by {
                    if j >= k && j > k {
                        assert(self@.lumps[k as int].id < self@.lumps[j].id);
                    }
                }
            }
            None
        }
    }

    /// The bytes stored under `id`.
    pub fn get(&self, id: LumpId) -> (r: Option<Vec<u8>>)
        requires
            self.wf(),
        ensures
            r is Some <==> has_id(self@.lumps, id.id),
            r is Some ==> exists|k: int|
                0 <= k < self@.lumps.len() && self@.lumps[k].id == id.id && r->Some_0@ == self@.lumps[k].data.bytes,
    {
        match self.find(id.id) {
            Some(k) => {
                assert(self@.lumps[k as int].data == self.entries@[k as int].data@);
                Some(self.entries[k].data.duplicate().into_bytes())
            },
            None => None,
        }
    }

    /// The metadata of the lump stored under `id`.
    pub fn head(&self, id: LumpId) -> (r: Option<LumpHeader>)
        requires
            self.wf(),
        ensures
            r is Some <==> has_id(self@.lumps, id.id),
            r is Some ==> exists|k: int|
                0 <= k < self@.lumps.len() && self@.lumps[k].id == id.id && r->Some_0 == (LumpHeader {
                    data_size: self@.lumps[k].data.bytes.len() as u64,
                    embedded: self@.lumps[k].data.embedded,
                }),
    {
        match self.find(id.id) {
            Some(k) => {
                assert(self@.lumps[k as int].data == self.entries@[k as int].data@);
                let d = &self.entries[k].data;
                Some(LumpHeader { data_size: d.len() as u64, embedded: d.is_embedded() })
            },
            None => None,
        }
    }

    /// Removes the lump of `id`; returns whether there was one.
    pub fn delete(&mut self, id: LumpId) -> (r: bool)
        requires
            old(self).wf(),
        ensures
            final(self).wf(),
            r == has_id(old(self)@.lumps, id.id),
            stored_after_delete(old(self)@, final(self)@, id.id),
            final(self)@.block_size == old(self)@.block_size,
            final(self)@.capacity == old(self)@.capacity,
            final(self)@.dirty == (old(self)@.dirty || r),
    {
        let ghost v = self@;
        match self.find(id.id) {
            Some(k) => {
                assert(v.lumps[k as int].data == self.entries@[k as int].data@);
                let fp = footprint_of(&self.entries[k].data, self.block_size);
                proof {
                    lemma_usage_remove(v.lumps, k as int, 0, id_limit(), v.block_size as nat);
                }
                let _ = self.entries.remove(k);
                assert(self@.lumps =~= v.lumps.remove(k as int));
                self.used = self.used - fp as u64;
                self.dirty = true;
                true
            },
            None => false,
        }
    }

    /// Synchronises the journal with the backing memory.
    pub fn journal_sync(&mut self)
        requires
            old(self).wf(),
        ensures
            final(self).wf(),
            final(self)@ == (StorageView { dirty: false, ..old(self)@ }),
    {
        self.dirty = false;
    }

    /// The ids in `[start, end)`, ascending.
    pub fn list_range(&self, start: LumpId, end: LumpId) -> (r: Vec<LumpId>)
        requires
            self.wf(),
        ensures
            ids_of(r@) == ids_in(self@.lumps, start.id as int, end.id as int),
    {
        let ghost s = self@.lumps;
        let ghost lo = start.id as int;
        let ghost hi = end.id as int;
        let mut r: Vec<LumpId> = Vec::new();
        let mut i: usize = 0;
        while i < self.entries.len()
            invariant
                self.wf(),
                s == self@.lumps,
                s.len() == self.entries@.len(),
                lo == start.id,
                hi == end.id,
                0 <= i <= s.len(),
                ids_of(r@) == ids_in(s.take(i as int), lo, hi),
            decreases s.len() - i,
        {
            proof {
                lemma_take_succ(s, i as int);
            }
            assert(s[i as int].id == self.entries@[i as int].id.id);
            let id = self.entries[i].id;
            if start.id <= id.id && id.id < end.id {
                let ghost before = r@;
                r.push(id);
                assert(ids_of(r@) =~= ids_of(before).push(id.id));
            }
            i = i + 1;
        }
        assert(s.take(i as int) =~= s);
        r
    }

    /// All ids, ascending.
    pub fn list(&self) -> (r: Vec<LumpId>)
        requires
            self.wf(),
        ensures
            ids_of(r@) == ids_in(self@.lumps, 0, id_limit()),
    {
        let ghost s = self@.lumps;
        let mut r: Vec<LumpId> = Vec::new();
        let mut i: usize = 0;
        while i < self.entries.len()
            invariant
                self.wf(),
                s == self@.lumps,
                s.len() == self.entries@.len(),
                0 <= i <= s.len(),
                ids_of(r@) == ids_in(s.take(i as int), 0, id_limit()),
            decreases s.len() - i,
        {
            proof {
                lemma_take_succ(s, i as int);
            }
            assert(s[i as int].id == self.entries@[i as int].id.id);
            let ghost before = r@;
            r.push(self.entries[i].id);
            assert(ids_of(r@) =~= ids_of(before).push(s[i as int].id));
            i = i + 1;
        }
        assert(s.take(i as int) =~= s);
        r
    }

    /// Data-region bytes used by the lumps whose ids lie in `[start, end)`.
    pub fn usage_range(&self, start: LumpId, end: LumpId) -> (r: u64)
        requires
            self.wf(),
        ensures
            r == usage_in(self@.lumps, start.id as int, end.id as int, self@.block_size as nat),
    {
        let ghost s = self@.lumps;
        let ghost lo = start.id as int;
        let ghost hi = end.id as int;
        let ghost bs = self@.block_size as nat;
        let mut acc: u64 = 0;
        let mut i: usize = 0;
        proof {
            lemma_usage_le_total(s, lo, hi, bs);
        }
        while i < self.entries.len()
            invariant
                self.wf(),
                s == self@.lumps,
                s.len() == self.entries@.len(),
                lo == start.id,
                hi == end.id,
                bs == self@.block_size,
                0 <= i <= s.len(),
                acc == usage_in(s.take(i as int), lo, hi, bs),
                usage_in(s, lo, hi, bs) <= self@.capacity,
            decreases s.len() - i,
        {
            proof {
                lemma_take_succ(s, i as int);
                lemma_usage_take_le(s, i as int + 1, lo, hi, bs);
            }
            assert(s[i as int].id == self.entries@[i as int].id.id);
            assert(s[i as int].data == self.entries@[i as int].data@);
            let id = self.entries[i].id;
            if start.id <= id.id && id.id < end.id {
                let fp = footprint_of(&self.entries[i].data, self.block_size);
                acc = acc + fp as u64;
            }
            i = i + 1;
        }
        assert(s.take(i as int) =~= s);
        acc
    }

    /// Removes the lumps whose ids lie in `[start, end)`; returns their ids, ascending.
    pub fn delete_range(&mut self, start: LumpId, end: LumpId) -> (r: Vec<LumpId>)
        requires
            old(self).wf(),
        ensures
            final(self).wf(),
            ids_of(r@) == ids_in(old(self)@.lumps, start.id as int, end.id as int),
            final(self)@.lumps == without(old(self)@.lumps, start.id as int, end.id as int),
            final(self)@.block_size == old(self)@.block_size,
            final(self)@.capacity == old(self)@.capacity,
            final(self)@.dirty == (old(self)@.dirty || r@.len() > 0),
    {
        let ghost s = self@.lumps;
        let ghost lo = start.id as int;
        let ghost hi = end.id as int;
        let ghost bs = self@.block_size as nat;
        let mut kept: Vec<Lump> = Vec::new();
        let mut removed: Vec<LumpId> = Vec::new();
        let mut freed: u64 = 0;
        let mut i: usize = 0;
        proof {
            lemma_usage_le_total(s, lo, hi, bs);
        }
        while i < self.entries.len()
            invariant
                self.wf(),
                s == self@.lumps,
                s.len() == self.entries@.len(),
                lo == start.id,
                hi == end.id,
                bs == self@.block_size,
                0 <= i <= s.len(),
                freed == usage_in(s.take(i as int), lo, hi, bs),
                usage_in(s, lo, hi, bs) <= self@.capacity,
                ids_of(removed@) == ids_in(s.take(i as int), lo, hi),
                kept@.map_values(|e: Lump| LumpEntry { id: e.id.id, data: e.data@ })
                    == without(s.take(i as int), lo, hi),
                sorted(without(s.take(i as int), lo, hi)),
                i < s.len() && without(s.take(i as int), lo, hi).len() > 0
                    ==> without(s.take(i as int), lo, hi).last().id < s[i as int].id,
            decreases s.len() - i,
        {
            proof {
                lemma_take_succ(s, i as int);
                lemma_usage_take_le(s, i as int + 1, lo, hi, bs);
            }
            assert(s[i as int].id == self.entries@[i as int].id.id);
            assert(s[i as int].data == self.entries@[i as int].data@);
            let id = self.entries[i].id;
            let ghost w = without(s.take(i as int), lo, hi);
            if start.id <= id.id && id.id < end.id {
                let fp = footprint_of(&self.entries[i].data, self.block_size);
                freed = freed + fp as u64;
                let ghost before = removed@;
                removed.push(id);
                assert(ids_of(removed@) =~= ids_of(before).push(id.id));
                proof {
                    if i + 1 < s.len() && w.len() > 0 {
                        assert(s[i as int].id < s[i + 1].id);
                    }
                }
            } else {
                let data = self.entries[i].data.duplicate();
                let ghost before = kept@;
                kept.push(Lump { id, data });
                assert(kept@.map_values(|e: Lump| LumpEntry { id: e.id.id, data: e.data@ }) =~= before.map_values(
                    |e: Lump| LumpEntry { id: e.id.id, data: e.data@ },
                ).push(s[i as int]));
                proof {
                    let w2 = w.push(s[i as int]);
                    assert forall|a: int, b: int| 0 <= a < b < w2.len() implies w2[a].id < w2[b].id by {
                        if b == w2.len() - 1 && a < w.len() {
                            assert(w[w.len() - 1].id < s[i as int].id);
                            if a < w.len() - 1 {
                                assert(w[a].id < w[w.len() - 1].id);
                            }
                        }
                    }
                    if i + 1 < s.len() {
                        assert(s[i as int].id < s[i + 1].id);
                    }
                }
            }
            i = i + 1;
        }
        assert(s.take(i as int) =~= s);
        proof {
            lemma_usage_split(s, lo, hi, bs);
        }
        self.entries = kept;
        self.used = self.used - freed;
        if removed.len() > 0 {
            self.dirty = true;
        }
        removed
    }
}

} // verus!

verus! {

proof fn lemma_ids_in_members(s: Seq<LumpEntry>, lo: int, hi: int)
    ensures
        forall|x: u128| #[trigger] ids_in(s, lo, hi).contains(x) <==> (has_id(s, x) && in_range(x, lo, hi)),
        forall|i: int|
            0 <= i < ids_in(s, lo, hi).len() ==> exists|j: int| 0 <= j < s.len() && s[j].id == #[trigger] ids_in(s, lo, hi)[i],
    decreases s.len(),
{
    if s.len() > 0 {
        let p = s.drop_last();
        lemma_ids_in_members(p, lo, hi);
        let q = ids_in(p, lo, hi);
        let r = ids_in(s, lo, hi);
        let last = s.last().id;
        assert(r == if in_range(last, lo, hi) { q.push(last) } else { q });
        assert forall|x: u128| #[trigger] r.contains(x) implies (has_id(s, x) && in_range(x, lo, hi)) by {
            let i = choose|i: int| 0 <= i < r.len() && r[i] == x;
            if in_range(last, lo, hi) && i == q.len() {
                assert(s[s.len() - 1].id == x);
            } else {
                assert(q[i] == x);
                assert(q.contains(x));
                let j = choose|j: int| 0 <= j < p.len() && p[j].id == x;
                assert(s[j].id == x);
            }
        }
        assert forall|x: u128| has_id(s, x) && in_range(x, lo, hi) implies #[trigger] r.contains(x) by {
            let j = choose|j: int| 0 <= j < s.len() && s[j].id == x;
            if j < s.len() - 1 {
                assert(p[j].id == x);
                assert(has_id(p, x));
                assert(q.contains(x));
                let i = choose|i: int| 0 <= i < q.len() && q[i] == x;
                assert(r[i] == x);
            } else {
                assert(r[q.len() as int] == x);
            }
        }
        assert forall|i: int| 0 <= i < r.len() implies exists|j: int| 0 <= j < s.len() && s[j].id == #[trigger] r[i] by {
            if in_range(last, lo, hi) && i == q.len() {
                assert(s[s.len() - 1].id == r[i]);
            } else {
                assert(r[i] == q[i]);
                let j = choose|j: int| 0 <= j < p.len() && p[j].id == q[i];
                assert(s[j].id == q[i]);
            }
        }
    }
}

proof fn lemma_ids_in_sorted(s: Seq<LumpEntry>, lo: int, hi: int)
    requires
        sorted(s),
    ensures
        sorted_ids(ids_in(s, lo, hi)),
    decreases s.len(),
{
    if s.len() > 0 {
        let p = s.drop_last();
        assert(sorted(p));
        lemma_ids_in_sorted(p, lo, hi);
        lemma_ids_in_members(p, lo, hi);
        let q = ids_in(p, lo, hi);
        if in_range(s.last().id, lo, hi) {
            let r = q.push(s.last().id);
            assert forall|a: int, b: int| 0 <= a < b < r.len() implies r[a] < r[b] by {
                if b == q.len() {
                    let j = choose|j: int| 0 <= j < p.len() && p[j].id == #[trigger] q[a];
                    assert(s[j].id < s[s.len() - 1].id);
                } else {
                    assert(q[a] < q[b]);
                }
            }
        }
    }
}

/// Range listing is exact: the listing of `[lo, hi)` holds precisely the
/// stored ids `x` with `lo <= x < hi`, in strictly ascending order.
pub proof fn law_list_range_exact(s: Seq<LumpEntry>, lo: int, hi: int)
    requires
        sorted(s),
    ensures
        sorted_ids(ids_in(s, lo, hi)),
        forall|x: u128| ids_in(s, lo, hi).contains(x) <==> (has_id(s, x) && lo <= x < hi),
{
    lemma_ids_in_members(s, lo, hi);
    lemma_ids_in_sorted(s, lo, hi);
}

/// Deleting after a put: the put leaves the id stored; the first delete
/// removes it (so it reports `true`); the second finds nothing (so it reports
/// `false`) and changes nothing; the listing after the first delete no longer
/// holds the id and holds every other id it held after the put.
pub proof fn law_delete_round_trip(
    v: StorageView,
    w1: StorageView,
    w2: StorageView,
    w3: StorageView,
    id: u128,
    d: LumpDataView,
)
    requires
        sorted(v.lumps),
        stored_after_put(v, w1, id, d),
        stored_after_delete(w1, w2, id),
        stored_after_delete(w2, w3, id),
    ensures
        has_id(w1.lumps, id),
        !has_id(w2.lumps, id),
        w3.lumps == w2.lumps,
        !ids_in(w2.lumps, 0, id_limit()).contains(id),
        forall|x: u128| x != id ==> (ids_in(w2.lumps, 0, id_limit()).contains(x) <==> ids_in(w1.lumps, 0, id_limit()).contains(x)),
{
    let e = LumpEntry { id, data: d };
    if has_id(v.lumps, id) {
        let k = choose|k: int| 0 <= k < v.lumps.len() && v.lumps[k].id == id && w1.lumps == v.lumps.update(k, e);
        assert(w1.lumps[k].id == id);
    } else {
        let k = choose|k: int| 0 <= k <= v.lumps.len() && w1.lumps == v.lumps.insert(k, e);
        assert(w1.lumps[k].id == id);
    }
    let k = choose|k: int| 0 <= k < w1.lumps.len() && w1.lumps[k].id == id && w2.lumps == w1.lumps.remove(k);
    assert forall|j: int| 0 <= j < w2.lumps.len() implies w2.lumps[j].id != id by {
        if j < k {
            assert(w2.lumps[j] == w1.lumps[j]);
            lemma_sorted_unique_neq(w1.lumps, j, k);
        } else {
            assert(w2.lumps[j] == w1.lumps[j + 1]);
            lemma_sorted_unique_neq(w1.lumps, j + 1, k);
        }
    }
    lemma_ids_in_members(w1.lumps, 0, id_limit());
    lemma_ids_in_members(w2.lumps, 0, id_limit());
    assert forall|x: u128| x != id implies (ids_in(w2.lumps, 0, id_limit()).contains(x) <==> ids_in(
        w1.lumps,
        0,
        id_limit(),
    ).contains(x)) by {
        assert(in_range(x, 0, id_limit()));
        if has_id(w1.lumps, x) {
            let j = choose|j: int| 0 <= j < w1.lumps.len() && w1.lumps[j].id == x;
            if j < k {
                assert(w2.lumps[j] == w1.lumps[j]);
            } else if j > k {
                assert(w2.lumps[j - 1] == w1.lumps[j]);
            }
        }
        if has_id(w2.lumps, x) {
            let j = choose|j: int| 0 <= j < w2.lumps.len() && w2.lumps[j].id == x;
            if j < k {
                assert(w2.lumps[j] == w1.lumps[j]);
            } else {
                assert(w2.lumps[j] == w1.lumps[j + 1]);
            }
        }
    }
}

proof fn lemma_sorted_unique_neq(s: Seq<LumpEntry>, i: int, j: int)
    requires
        sorted(s),
        0 <= i < s.len(),
        0 <= j < s.len(),
        i != j,
    ensures
        s[i].id != s[j].id,
{
    if i < j {
        assert(s[i].id < s[j].id);
    } else {
        assert(s[j].id < s[i].id);
    }
}

/// Storing data under a fresh id raises the usage of every range that holds
/// the id by the data-region size of the data: its length plus the footer,
/// rounded up to whole blocks (nothing for embedded data); ranges without the
/// id keep their usage.
pub proof fn law_usage_after_fresh_put(v: StorageView, w: StorageView, id: u128, d: LumpDataView, lo: int, hi: int)
    requires
        stored_after_put(v, w, id, d),
        !has_id(v.lumps, id),
        w.block_size == v.block_size,
    ensures
        usage_in(w.lumps, lo, hi, w.block_size as nat) == usage_in(v.lumps, lo, hi, v.block_size as nat) + if lo <= id
            < hi {
            footprint(d, v.block_size as nat)
        } else {
            0
        },
{
    let k = choose|k: int| 0 <= k <= v.lumps.len() && w.lumps == v.lumps.insert(k, LumpEntry { id, data: d });
    lemma_usage_insert(v.lumps, k, LumpEntry { id, data: d }, lo, hi, v.block_size as nat);
}

} // verus!

verus! {

/// A fresh put of `n` bytes of plain data raises the usage of a range holding
/// its id by `ceil(n / block_size) * block_size`, whenever `n` is neither a
/// multiple of the block size nor one short of one; on those lengths the
/// two-byte footer spills into one more block.
pub proof fn law_usage_grows_by_whole_blocks(
    v: StorageView,
    w: StorageView,
    id: u128,
    d: LumpDataView,
    lo: int,
    hi: int,
)
    requires
        stored_after_put(v, w, id, d),
        !has_id(v.lumps, id),
        w.block_size == v.block_size,
        v.block_size > 0,
        !d.embedded,
        lo <= id < hi,
        (d.bytes.len() as int) % (v.block_size as int) != 0,
        (d.bytes.len() as int) % (v.block_size as int) != v.block_size as int - 1,
    ensures
        usage_in(w.lumps, lo, hi, w.block_size as nat) == usage_in(v.lumps, lo, hi, v.block_size as nat) + (
        d.bytes.len() as int + v.block_size as int - 1) / (v.block_size as int) * (v.block_size as int),
{
    law_usage_after_fresh_put(v, w, id, d, lo, hi);
    let n = d.bytes.len() as int;
    let b = v.block_size as int;
    let q = n / b;
    let r = n % b;
    vstd::arithmetic::div_mod::lemma_fundamental_div_mod(n, b);
    assert(n + b + 1 == (q + 1) * b + (r + 1)) by (nonlinear_arith)
        requires
            n == b * q + r,
    ;
    assert(n + b - 1 == (q + 1) * b + (r - 1)) by (nonlinear_arith)
        requires
            n == b * q + r,
    ;
    vstd::arithmetic::div_mod::lemma_fundamental_div_mod_converse(n + b + 1, b, q + 1, r + 1);
    vstd::arithmetic::div_mod::lemma_fundamental_div_mod_converse(n + b - 1, b, q + 1, r - 1);
    assert(((n + 2 + b - 1) as nat) as int == n + b + 1);
}

} // verus!
