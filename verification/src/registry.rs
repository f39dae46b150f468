//! The GPU resource registry: one record per model identifier aggregating
//! the loaded model, its instance sequence, the tracked instance count and
//! the capacity of its GPU-side instance buffer.
//!
//! The registry decides what the GPU mirror must do — which buffers to
//! (re)allocate under the grow-only policy, which bytes to write, which
//! draws to issue — and hands those decisions out as plain values; the
//! caller owns the GPU objects and carries the decisions out.

use vstd::prelude::*;
use vstd::seq_lib::group_seq_properties;

use crate::definitions::{InstanceData, Material, Model};
use crate::mesh_builder::{
    all_vertices, convert_material, identity_indices, submesh_of, ObjLoader, RawMaterial, RawMesh,
};
use crate::serialize::{instances_as_bytes, instances_words, vertices_words, words_le};

verus! {

/// Capacity of the placeholder instance buffer created at load time.
pub const PLACEHOLDER_CAPACITY: u64 = 1;

/// Everything the registry tracks for one model identifier.
pub struct Entry {
    /// The model identifier.
    pub id: String,
    /// The loaded geometry and submesh table.
    pub model: Model,
    /// The CPU-side instance sequence, replaced wholesale by the caller.
    pub instances: Vec<InstanceData>,
    /// Number of instances mirrored on the GPU at the last sync.
    pub instance_count: u32,
    /// Byte capacity of the GPU-side instance buffer; grows, never shrinks.
    pub buffer_capacity: u64,
}

impl Entry {
    /// The instance sequence's byte size stays computable and the model is
    /// sound.
    pub open spec fn wf(&self) -> bool {
        &&& self.model.wf()
        &&& 64 * self.instances@.len() <= usize::MAX
        &&& self.instances@.len() <= u32::MAX
    }
}

/// The registry: the per-identifier records and the accumulated material
/// table that submeshes index into.
pub struct Registry {
    pub entries: Vec<Entry>,
    pub materials: Vec<Material>,
}

/// Whether some record carries the identifier.
pub open spec fn has_id(s: Seq<Entry>, id: Seq<char>) -> bool {
    exists|i: int| 0 <= i < s.len() && #[trigger] s[i].id@ == id
}

/// The record freshly stored by a load: the model built from the parse, an
/// empty instance sequence, count zero, and the 1-byte placeholder buffer.
pub open spec fn loaded_entry(e: Entry, id: Seq<char>, meshes: Seq<RawMesh>) -> bool {
    &&& e.id@ == id
    &&& e.model.submeshes@ == Seq::new(meshes.len(), |k: int| submesh_of(meshes, k))
    &&& e.model.ebo_offset == 32 * all_vertices(meshes).len()
    &&& e.model.buffer@ == words_le(vertices_words(all_vertices(meshes))) + words_le(
        identity_indices(all_vertices(meshes).len() as int),
    )
    &&& e.instances@ == Seq::<InstanceData>::empty()
    &&& e.instance_count == 0
    &&& e.buffer_capacity == PLACEHOLDER_CAPACITY
}

impl Registry {
    /// Identifiers are unique and every record and material is sound.
    pub open spec fn wf(&self) -> bool {
        &&& forall|i: int, j: int|
            0 <= i < j < self.entries@.len() ==> (#[trigger] self.entries@[i]).id@ != (
            #[trigger] self.entries@[j]).id@
        &&& forall|i: int|
            0 <= i < self.entries@.len() ==> (#[trigger] self.entries@[i]).wf()
        &&& forall|i: int|
            0 <= i < self.materials@.len() ==> (#[trigger] self.materials@[i]).wf()
    }

    /// An empty registry: no models, no materials.
    pub fn new() -> (r: Registry)
        ensures
            r.entries@.len() == 0,
            r.materials@.len() == 0,
            r.wf(),
    {
        Registry { entries: Vec::new(), materials: Vec::new() }
    }

    /// Index of the record carrying `id`, if any.
    fn find(&self, id: &String) -> (r: Option<usize>)
        ensures
            match r {
                Some(i) => i < self.entries@.len() && self.entries@[i as int].id@ == id@,
                None => !has_id(self.entries@, id@),
            },
    {
        let mut i: usize = 0;
        while i < self.entries.len()
            invariant
                i <= self.entries@.len(),
                forall|t: int| 0 <= t < i ==> (#[trigger] self.entries@[t]).id@ != id@,
            decreases self.entries@.len() - i,
        {
            if self.entries[i].id == *id {
                return Some(i);
            }
            i = i + 1;
        }
        None
    }

    /// Stores the model parsed from a file under `id`, overwriting any prior
    /// model at that id, appends the parse's converted materials to the
    /// material table, and resets the id's instance bookkeeping: an empty
    /// instance sequence, count zero, and the placeholder instance buffer.
    pub fn load(&mut self, id: &String, meshes: &Vec<RawMesh>, raw_materials: &Vec<RawMaterial>)
        requires
            old(self).wf(),
            forall|k: int| 0 <= k < meshes@.len() ==> (#[trigger] meshes@[k]).wf(),
            all_vertices(meshes@).len() <= i32::MAX,
            36 * all_vertices(meshes@).len() <= usize::MAX,
        ensures
            final(self).wf(),
            final(self).materials@ == old(self).materials@ + raw_materials@.map_values(
                |rm: RawMaterial| convert_material(rm),
            ),
            // Last write wins: the record for `id` — replaced in place or
            // appended — is exactly the freshly loaded one; others keep
            // their state.
            forall|i: int|
                0 <= i < old(self).entries@.len() && (#[trigger] old(self).entries@[i]).id@ != id@
                    ==> final(self).entries@[i] == old(self).entries@[i],
            forall|i: int|
                0 <= i < old(self).entries@.len() && (#[trigger] old(self).entries@[i]).id@ == id@
                    ==> loaded_entry(final(self).entries@[i], id@, meshes@),
            has_id(old(self).entries@, id@) ==> final(self).entries@.len() == old(
                self,
            ).entries@.len(),
            !has_id(old(self).entries@, id@) ==> {
                &&& final(self).entries@.len() == old(self).entries@.len() + 1
                &&& final(self).entries@.drop_last() == old(self).entries@
                &&& loaded_entry(final(self).entries@.last(), id@, meshes@)
            },
            has_id(final(self).entries@, id@),
    {
        let mut loader = ObjLoader::new();
        let model = loader.load(meshes, raw_materials, &mut self.materials);

        let fresh = Entry {
            id: id.clone(),
            model,
            instances: Vec::new(),
            instance_count: 0,
            buffer_capacity: PLACEHOLDER_CAPACITY,
        };
        proof {
            assert(loaded_entry(fresh, id@, meshes@));
        }
        match self.find(id) {
            Some(i) => {
                self.entries[i] = fresh;
                proof {
                    assert(self.entries@[i as int].id@ == id@);
                }
            },
            None => {
                self.entries.push(fresh);
                proof {
                    assert(self.entries@.drop_last() =~= old(self).entries@);
                    assert(self.entries@[self.entries@.len() - 1].id@ == id@);
                }
            },
        }
    }

    /// Replaces the instance sequence stored for `id`. An identifier that
    /// was never loaded is left alone: nothing is stored for it and later
    /// draws skip it.
    pub fn set_instances(&mut self, id: &String, instances: Vec<InstanceData>)
        requires
            old(self).wf(),
            64 * instances@.len() <= usize::MAX,
            instances@.len() <= u32::MAX,
        ensures
            final(self).wf(),
            final(self).materials@ == old(self).materials@,
            final(self).entries@.len() == old(self).entries@.len(),
            forall|i: int|
                0 <= i < old(self).entries@.len() && (#[trigger] old(self).entries@[i]).id@ != id@
                    ==> final(self).entries@[i] == old(self).entries@[i],
            forall|i: int|
                0 <= i < old(self).entries@.len() && (#[trigger] old(self).entries@[i]).id@ == id@
                    ==> {
                    let o = old(self).entries@[i];
                    let n = final(self).entries@[i];
                    &&& n.id == o.id
                    &&& n.model == o.model
                    &&& n.instances == instances
                    &&& n.instance_count == o.instance_count
                    &&& n.buffer_capacity == o.buffer_capacity
                },
    {
        match self.find(id) {
            Some(i) => {
                self.entries[i].instances = instances;
            },
            None => {},
        }
    }
}

/// Capacity after a sync: unchanged unless the needed byte size exceeds it,
/// in which case the buffer is reallocated at exactly the needed size.
pub open spec fn grown_capacity(cap: u64, need: int) -> int {
    if need > cap {
        need
    } else {
        cap as int
    }
}

/// What one sync does to one record: the count catches up with the instance
/// sequence and the capacity follows the grow-only policy; nothing else
/// moves.
pub open spec fn synced_entry(o: Entry, n: Entry) -> bool {
    &&& n.id == o.id
    &&& n.model == o.model
    &&& n.instances == o.instances
    &&& n.instance_count == o.instances@.len()
    &&& n.buffer_capacity == grown_capacity(o.buffer_capacity, 64 * o.instances@.len() as int)
}

/// What the caller must do to one GPU buffer after a sync.
pub struct SyncAction {
    /// The model identifier whose instance buffer is meant.
    pub id: String,
    /// When set, a new buffer of exactly this byte size must replace the
    /// old one.
    pub allocate: Option<u64>,
    /// When set, these bytes must be written to the buffer at offset zero.
    /// Absent for an empty instance sequence, whose stale buffer contents
    /// are left alone and never drawn.
    pub data: Option<Vec<u8>>,
}

/// The action a sync hands out for one record: allocate exactly when the
/// needed size exceeds the capacity, write exactly the serialized instance
/// sequence when it is non-empty.
pub open spec fn action_matches(o: Entry, a: SyncAction) -> bool {
    &&& a.id@ == o.id@
    &&& a.allocate == if 64 * o.instances@.len() > o.buffer_capacity {
        Some((64 * o.instances@.len()) as u64)
    } else {
        None::<u64>
    }
    &&& match a.data {
        Some(d) => o.instances@.len() > 0 && d@ == words_le(instances_words(o.instances@)),
        None => o.instances@.len() == 0,
    }
}

impl Registry {
    /// Brings the GPU bookkeeping up to date with every instance sequence:
    /// each record's count catches up, each capacity grows to the needed
    /// byte size exactly when too small — capacities never shrink — and the
    /// returned actions tell the caller which buffers to reallocate and
    /// which bytes to write.
    pub fn sync_buffers(&mut self) -> (actions: Vec<SyncAction>)
        requires
            old(self).wf(),
        ensures
            final(self).wf(),
            final(self).materials@ == old(self).materials@,
            final(self).entries@.len() == old(self).entries@.len(),
            forall|i: int|
                0 <= i < old(self).entries@.len() ==> synced_entry(
                    #[trigger] old(self).entries@[i],
                    final(self).entries@[i],
                ),
            // Capacities never decrease, whatever the instance counts did.
            forall|i: int|
                0 <= i < old(self).entries@.len() ==> final(self).entries@[i].buffer_capacity >= (
                #[trigger] old(self).entries@[i]).buffer_capacity,
            actions@.len() == old(self).entries@.len(),
            forall|i: int|
                0 <= i < old(self).entries@.len() ==> action_matches(
                    #[trigger] old(self).entries@[i],
                    actions@[i],
                ),
    {
        let mut actions: Vec<SyncAction> = Vec::new();
        let mut i: usize = 0;
        while i < self.entries.len()
            invariant
                i <= self.entries@.len(),
                old(self).wf(),
                self.materials@ == old(self).materials@,
                self.entries@.len() == old(self).entries@.len(),
                forall|t: int|
                    i <= t < self.entries@.len() ==> #[trigger] self.entries@[t] == old(
                        self,
                    ).entries@[t],
                forall|t: int|
                    0 <= t < i ==> synced_entry(
                        #[trigger] old(self).entries@[t],
                        self.entries@[t],
                    ),
                actions@.len() == i,
                forall|t: int|
                    0 <= t < i ==> action_matches(#[trigger] old(self).entries@[t], actions@[t]),
            decreases self.entries@.len() - i,
        {
            proof {
                assert(old(self).entries@[i as int].wf());
            }
            let count: u32 = self.entries[i].instances.len() as u32;
            let need: u64 = (self.entries[i].instances.len() as u64) * 64;
            let needs_alloc = need > self.entries[i].buffer_capacity;
            let data = if count > 0 {
                Some(instances_as_bytes(&self.entries[i].instances))
            } else {
                None
            };
            actions.push(
                SyncAction {
                    id: self.entries[i].id.clone(),
                    allocate: if needs_alloc {
                        Some(need)
                    } else {
                        None
                    },
                    data,
                },
            );
            self.entries[i].instance_count = count;
            if needs_alloc {
                self.entries[i].buffer_capacity = need;
            }
            proof {
                assert(synced_entry(old(self).entries@[i as int], self.entries@[i as int]));
                assert(action_matches(old(self).entries@[i as int], actions@[i as int]));
            }
            i = i + 1;
        }
        proof {
            assert forall|a: int| 0 <= a < self.entries@.len() implies (
            #[trigger] self.entries@[a]).wf() by {
                assert(synced_entry(old(self).entries@[a], self.entries@[a]));
                assert(old(self).entries@[a].wf());
            }
            assert forall|a: int, b: int| 0 <= a < b < self.entries@.len() implies (
            #[trigger] self.entries@[a]).id@ != (#[trigger] self.entries@[b]).id@ by {
                assert(synced_entry(old(self).entries@[a], self.entries@[a]));
                assert(synced_entry(old(self).entries@[b], self.entries@[b]));
            }
        }
        actions
    }
}

/// One instanced indexed draw the caller must issue: the model's buffers,
/// one submesh's index range and material, and how many instances to draw.
pub struct DrawCall {
    /// The model identifier whose vertex/index and instance buffers to bind.
    pub id: String,
    /// Byte offset separating the model buffer's vertex and index regions.
    pub ebo_offset: u64,
    /// First index of the submesh's range.
    pub first_index: i32,
    /// Number of indices in the submesh's range.
    pub index_count: u32,
    /// Position of the submesh's material in the material table.
    pub material_id: usize,
    /// Number of instances to draw; always positive.
    pub instance_count: u32,
}

/// The draw issued for submesh `s` of a record.
pub open spec fn call_of(e: Entry, s: int) -> DrawCall {
    DrawCall {
        id: e.id,
        ebo_offset: e.model.ebo_offset,
        first_index: e.model.submeshes@[s].first_index,
        index_count: e.model.submeshes@[s].index_count,
        material_id: e.model.submeshes@[s].material_id,
        instance_count: e.instance_count,
    }
}

/// The draws one record produces: none while its count is zero, otherwise
/// one per submesh, each drawing all counted instances.
pub open spec fn entry_calls(e: Entry) -> Seq<DrawCall> {
    if e.instance_count == 0 {
        Seq::empty()
    } else {
        Seq::new(e.model.submeshes@.len(), |s: int| call_of(e, s))
    }
}

/// The draws of a whole registry, record after record.
pub open spec fn all_calls(s: Seq<Entry>) -> Seq<DrawCall>
    decreases s.len(),
{
    if s.len() == 0 {
        Seq::empty()
    } else {
        all_calls(s.drop_last()) + entry_calls(s.last())
    }
}

impl Registry {
    /// Enumerates every draw of the next frame: for each model id whose
    /// tracked instance count is positive, one instanced indexed draw per
    /// submesh, covering all counted instances. Ids with count zero are
    /// skipped entirely.
    pub fn draw_list(&self) -> (calls: Vec<DrawCall>)
        requires
            self.wf(),
        ensures
            calls@ == all_calls(self.entries@),
    {
        let mut calls: Vec<DrawCall> = Vec::new();
        let mut i: usize = 0;
        while i < self.entries.len()
            invariant
                i <= self.entries@.len(),
                self.wf(),
                calls@ == all_calls(self.entries@.take(i as int)),
            decreases self.entries@.len() - i,
        {
            let e = &self.entries[i];
            if e.instance_count > 0 {
                let mut s: usize = 0;
                while s < e.model.submeshes.len()
                    invariant
                        s <= e.model.submeshes@.len(),
                        e == self.entries@[i as int],
                        i < self.entries@.len(),
                        e.instance_count > 0,
                        calls@ == all_calls(self.entries@.take(i as int)) + entry_calls(
                            *e,
                        ).take(s as int),
                    decreases e.model.submeshes@.len() - s,
                {
                    calls.push(
                        DrawCall {
                            id: e.id.clone(),
                            ebo_offset: e.model.ebo_offset,
                            first_index: e.model.submeshes[s].first_index,
                            index_count: e.model.submeshes[s].index_count,
                            material_id: e.model.submeshes[s].material_id,
                            instance_count: e.instance_count,
                        },
                    );
                    proof {
                        assert(calls@ =~= all_calls(self.entries@.take(i as int)) + entry_calls(
                            *e,
                        ).take(s as int + 1));
                    }
                    s = s + 1;
                }
                proof {
                    assert(entry_calls(*e).take(entry_calls(*e).len() as int) =~= entry_calls(*e));
                }
            }
            proof {
                assert(self.entries@.take(i as int + 1).drop_last() =~= self.entries@.take(
                    i as int,
                ));
                assert(self.entries@.take(i as int + 1).last() == self.entries@[i as int]);
                assert(calls@ =~= all_calls(self.entries@.take(i as int + 1)));
            }
            i = i + 1;
        }
        proof {
            assert(self.entries@.take(self.entries@.len() as int) =~= self.entries@);
        }
        calls
    }
}

/// The predicate picking the draws that bind a given model id.
pub open spec fn by_id(id: Seq<char>) -> spec_fn(DrawCall) -> bool {
    |c: DrawCall| c.id@ == id
}

/// A sequence of records none of which carries `id` produces no draw with
/// that id.
proof fn lemma_no_id_no_calls(s: Seq<Entry>, id: Seq<char>)
    requires
        !has_id(s, id),
    ensures
        all_calls(s).filter(by_id(id)) == Seq::<DrawCall>::empty(),
    decreases s.len(),
{
    broadcast use group_seq_properties;

    reveal(Seq::filter);
    if s.len() > 0 {
        assert(!has_id(s.drop_last(), id)) by {
            assert(forall|i: int|
                0 <= i < s.drop_last().len() ==> #[trigger] s.drop_last()[i] == s[i]);
        }
        lemma_no_id_no_calls(s.drop_last(), id);
        assert(s[s.len() - 1].id@ != id);
        lemma_filter_none(entry_calls(s.last()), by_id(id));
        Seq::filter_distributes_over_add(
            all_calls(s.drop_last()),
            entry_calls(s.last()),
            by_id(id),
        );
    }
}

/// Filtering by a predicate no element meets leaves nothing.
proof fn lemma_filter_none(s: Seq<DrawCall>, pred: spec_fn(DrawCall) -> bool)
    requires
        forall|i: int| 0 <= i < s.len() ==> !pred(#[trigger] s[i]),
    ensures
        s.filter(pred) == Seq::<DrawCall>::empty(),
    decreases s.len(),
{
    reveal(Seq::filter);
    if s.len() > 0 {
        lemma_filter_none(s.drop_last(), pred);
    }
}

/// Filtering by a predicate every element meets keeps everything.
proof fn lemma_filter_all(s: Seq<DrawCall>, pred: spec_fn(DrawCall) -> bool)
    requires
        forall|i: int| 0 <= i < s.len() ==> pred(#[trigger] s[i]),
    ensures
        s.filter(pred) == s,
    decreases s.len(),
{
    reveal(Seq::filter);
    if s.len() > 0 {
        lemma_filter_all(s.drop_last(), pred);
        assert(s.filter(pred) =~= s);
    }
}

/// Draw-call accounting for one model id: a record with count zero produces
/// no draw with its id; one with a positive count produces exactly one draw
/// per submesh, each carrying that count — and no other record contributes
/// a draw with that id.
pub proof fn lemma_draws_for_id(s: Seq<Entry>, i: int)
    requires
        forall|a: int, b: int|
            0 <= a < b < s.len() ==> (#[trigger] s[a]).id@ != (#[trigger] s[b]).id@,
        0 <= i < s.len(),
    ensures
        all_calls(s).filter(by_id(s[i].id@)) == entry_calls(s[i]),
        s[i].instance_count == 0 ==> all_calls(s).filter(by_id(s[i].id@)).len() == 0,
        s[i].instance_count > 0 ==> all_calls(s).filter(by_id(s[i].id@)).len()
            == s[i].model.submeshes@.len(),
        forall|k: int|
            0 <= k < entry_calls(s[i]).len() ==> (#[trigger] entry_calls(s[i])[k]).instance_count
                == s[i].instance_count,
    decreases s.len(),
{
    broadcast use group_seq_properties;

    let pred = by_id(s[i].id@);
    Seq::filter_distributes_over_add(all_calls(s.drop_last()), entry_calls(s.last()), pred);
    if i == s.len() - 1 {
        assert(!has_id(s.drop_last(), s[i].id@)) by {
            assert(forall|t: int|
                0 <= t < s.drop_last().len() ==> #[trigger] s.drop_last()[t] == s[t]);
        }
        lemma_no_id_no_calls(s.drop_last(), s[i].id@);
        lemma_filter_all(entry_calls(s.last()), pred);
        assert(all_calls(s).filter(pred) =~= entry_calls(s[i]));
    } else {
        assert(forall|t: int|
            0 <= t < s.drop_last().len() ==> #[trigger] s.drop_last()[t] == s[t]);
        lemma_draws_for_id(s.drop_last(), i);
        assert(s.last().id@ != s[i].id@);
        lemma_filter_none(entry_calls(s.last()), pred);
        assert(all_calls(s).filter(pred) =~= entry_calls(s[i]));
    }
}

/// Identifiers name records uniquely: two records carrying the same id are
/// the same record, so a load leaves exactly one model stored per id.
pub proof fn lemma_one_entry_per_id(s: Seq<Entry>, a: int, b: int)
    requires
        forall|x: int, y: int|
            0 <= x < y < s.len() ==> (#[trigger] s[x]).id@ != (#[trigger] s[y]).id@,
        0 <= a < s.len(),
        0 <= b < s.len(),
        s[a].id@ == s[b].id@,
    ensures
        a == b,
{
}

} // verus!
