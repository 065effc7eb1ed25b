use crate::error::PipelineError;
use crate::text::{append_decimal, padded_decimal};
use vstd::prelude::*;

verus! {

/// What a set of temporary stores holds: for each segment index the bytes
/// persisted for it, or nothing.
pub type Slots = Seq<Option<Seq<u8>>>;

/// The store of segment `i` exists.
pub open spec fn present(slots: Slots, i: int) -> bool {
    0 <= i < slots.len() && slots[i] is Some
}

/// The bytes of segment `i`, empty where its store is absent.
pub open spec fn content(slots: Slots, i: int) -> Seq<u8> {
    if present(slots, i) {
        slots[i]->Some_0
    } else {
        Seq::empty()
    }
}

/// The stores of segments `0..n` all exist.
pub open spec fn all_present(slots: Slots, n: int) -> bool {
    forall|i: int| 0 <= i < n ==> present(slots, i)
}

/// `i` is the lowest index below `n` whose store is absent.
pub open spec fn is_first_missing(slots: Slots, n: int, i: int) -> bool {
    &&& 0 <= i < n
    &&& !present(slots, i)
    &&& all_present(slots, i)
}

/// The bytes of segments `0..n`, one after the other in ascending index order.
pub open spec fn concat_prefix(slots: Slots, n: int) -> Seq<u8>
    decreases n,
{
    if n <= 0 {
        Seq::empty()
    } else {
        concat_prefix(slots, n - 1) + content(slots, n - 1)
    }
}

/// The chunks joined in the order in which the sequence lists them.
pub open spec fn joined(chunks: Seq<Seq<u8>>) -> Seq<u8>
    decreases chunks.len(),
{
    if chunks.len() == 0 {
        Seq::empty()
    } else {
        joined(chunks.drop_last()) + chunks.last()
    }
}

/// `n` stores, none of which exists yet.
pub open spec fn empty_slots(n: int) -> Slots {
    Seq::new(n as nat, |i: int| None)
}

/// The stores after `data` was persisted for segment `i`. An index past the
/// end changes nothing.
pub open spec fn slots_put(slots: Slots, i: int, data: Seq<u8>) -> Slots {
    if 0 <= i < slots.len() {
        slots.update(i, Some(data))
    } else {
        slots
    }
}

/// The stores after those of segments `0..n` were deleted.
pub open spec fn slots_cleared(slots: Slots, n: int) -> Slots {
    Seq::new(slots.len(), |k: int| if k < n { None } else { slots[k] })
}

/// The stores after the segments completed in the order `order`, each
/// persisting its own chunk of `chunks`.
pub open spec fn slots_filled(slots: Slots, order: Seq<int>, chunks: Seq<Seq<u8>>) -> Slots
    decreases order.len(),
{
    if order.len() == 0 {
        slots
    } else {
        let i = order.last();
        let data = if 0 <= i < chunks.len() { chunks[i] } else { Seq::empty() };
        slots_put(slots_filled(slots, order.drop_last(), chunks), i, data)
    }
}

/// `order` lists each of `0..n` exactly once.
pub open spec fn is_permutation(order: Seq<int>, n: int) -> bool {
    &&& order.len() == n
    &&& order.no_duplicates()
    &&& forall|k: int| 0 <= k < order.len() ==> 0 <= #[trigger] order[k] < n
}

/// Name of the location that takes the merged stream until it is transcoded.
pub const MERGED_STORE_NAME: &'static str = "temp_merged.ts";

/// The name of the temporary store of segment `index`: `seg_`, the index
/// in decimal with zeros in front up to five digits, and `.ts`.
pub open spec fn temp_store_name_of(index: nat) -> Seq<char> {
    "seg_"@ + padded_decimal(index, 5) + ".ts"@
}

/// Names the temporary store of a segment after its index.
pub fn temp_store_name(index: usize) -> (name: String)
    ensures
        name@ == temp_store_name_of(index as nat),
{
    let mut name = String::from_str("seg_");
    append_decimal(&mut name, index as u64, 5);
    name.append(".ts");
    name
}

/// The temporary stores of one job, keyed by segment index.
#[derive(Debug)]
pub struct SegmentStore {
    slots: Vec<Option<Vec<u8>>>,
}

impl View for SegmentStore {
    type V = Slots;

    closed spec fn view(&self) -> Slots {
        Seq::new(
            self.slots@.len(),
            |i: int|
                match self.slots@[i] {
                    Some(v) => Some(v@),
                    None => None,
                },
        )
    }
}

fn append_bytes(sink: &mut Vec<u8>, chunk: &Vec<u8>)
    ensures
        final(sink)@ == old(sink)@ + chunk@,
{
    let mut k: usize = 0;
    while k < chunk.len()
        invariant
            k <= chunk@.len(),
            sink@ == old(sink)@ + chunk@.subrange(0, k as int),
        decreases chunk@.len() - k,
    {
        sink.push(chunk[k]);
        k = k + 1;
    }
    assert(chunk@.subrange(0, chunk@.len() as int) == chunk@);
}

impl SegmentStore {
    /// Stores for `total` segments, all absent.
    pub fn new(total: usize) -> (s: SegmentStore)
        ensures
            s@ == empty_slots(total as int),
    {
        let mut slots: Vec<Option<Vec<u8>>> = Vec::new();
        let mut i: usize = 0;
        while i < total
            invariant
                i <= total,
                slots@.len() == i,
                forall|k: int| 0 <= k < i ==> slots@[k] is None,
            decreases total - i,
        {
            slots.push(None);
            i = i + 1;
        }
        let s = SegmentStore { slots };
        assert(s@ =~= empty_slots(total as int));
        s
    }

    /// Number of segments the store has room for.
    pub fn len(&self) -> (n: usize)
        ensures
            n == self@.len(),
    {
        self.slots.len()
    }

    /// Whether the store of segment `index` exists.
    pub fn holds(&self, index: usize) -> (b: bool)
        ensures
            b == present(self@, index as int),
    {
        index < self.slots.len() && self.slots[index].is_some()
    }

    /// The bytes persisted for segment `index`.
    pub fn get(&self, index: usize) -> (r: Option<&Vec<u8>>)
        ensures
            r is Some <==> present(self@, index as int),
            r matches Some(v) ==> v@ == content(self@, index as int),
    {
        if index < self.slots.len() {
            self.slots[index].as_ref()
        } else {
            None
        }
    }

    /// Persists `data` as the store of segment `index`, in place of what
    /// was there. Returns `false`, and changes nothing, for an index the
    /// job does not have.
    pub fn put(&mut self, index: usize, data: Vec<u8>) -> (stored: bool)
        ensures
            stored == (index < old(self)@.len()),
            final(self)@ == slots_put(old(self)@, index as int, data@),
    {
        if index < self.slots.len() {
            self.slots.set(index, Some(data));
            assert(self@ =~= slots_put(old(self)@, index as int, data@));
            true
        } else {
            false
        }
    }

    /// Deletes the store of segment `index`, if there is one.
    pub fn remove(&mut self, index: usize)
        ensures
            final(self)@.len() == old(self)@.len(),
            forall|k: int|
                0 <= k < old(self)@.len() ==> #[trigger] final(self)@[k] == if k == index {
                    None
                } else {
                    old(self)@[k]
                },
    {
        if index < self.slots.len() {
            self.slots.set(index, None);
        }
    }
}

/// Appends the segments `0..total` to `sink` in ascending index order,
/// whatever the order in which they were persisted, and deletes each store
/// once it is appended, unless `retain` is set.
///
/// Stops at the first absent store: what lies before it is then in `sink`,
/// and the error names the index.
pub fn merge(total: usize, store: &mut SegmentStore, sink: &mut Vec<u8>, retain: bool) -> (r:
    Result<(), PipelineError>)
    ensures
        r is Ok <==> all_present(old(store)@, total as int),
        r is Ok ==> {
            &&& final(sink)@ == old(sink)@ + concat_prefix(old(store)@, total as int)
            &&& final(store)@ == if retain {
                old(store)@
            } else {
                slots_cleared(old(store)@, total as int)
            }
        },
        r matches Err(e) ==> e matches PipelineError::MissingSegmentData(i) && {
            &&& is_first_missing(old(store)@, total as int, i as int)
            &&& final(sink)@ == old(sink)@ + concat_prefix(old(store)@, i as int)
            &&& final(store)@ == if retain {
                old(store)@
            } else {
                slots_cleared(old(store)@, i as int)
            }
        },
{
    let mut i: usize = 0;
    assert(store@ =~= slots_cleared(old(store)@, 0));
    while i < total
        invariant
            i <= total,
            all_present(old(store)@, i as int),
            sink@ == old(sink)@ + concat_prefix(old(store)@, i as int),
            store@ == if retain {
                old(store)@
            } else {
                slots_cleared(old(store)@, i as int)
            },
        decreases total - i,
    {
        match store.get(i) {
            Some(chunk) => {
                append_bytes(sink, chunk);
            },
            None => {
                assert(!present(old(store)@, i as int));
                return Err(PipelineError::MissingSegmentData(i));
            },
        }
        assert(sink@ == old(sink)@ + concat_prefix(old(store)@, i + 1)) by {
            assert(content(store@, i as int) == content(old(store)@, i as int));
            assert(sink@ =~= old(sink)@ + (concat_prefix(old(store)@, i as int) + content(
                old(store)@,
                i as int,
            )));
        }
        if !retain {
            store.remove(i);
            assert(store@ =~= slots_cleared(old(store)@, i + 1));
        }
        i = i + 1;
    }
    Ok(())
}

/// Where every store exists, the merged bytes are the chunks joined.
pub proof fn lemma_concat_of_all(chunks: Seq<Seq<u8>>, n: int)
    requires
        0 <= n <= chunks.len(),
    ensures
        concat_prefix(chunks.map_values(|c: Seq<u8>| Some(c)), n) == joined(chunks.take(n)),
    decreases n,
{
    let slots = chunks.map_values(|c: Seq<u8>| Some(c));
    if n > 0 {
        lemma_concat_of_all(chunks, n - 1);
        assert(chunks.take(n).drop_last() =~= chunks.take(n - 1));
        assert(content(slots, n - 1) == chunks[n - 1]);
    }
}

/// After the segments of `order` completed, a store exists exactly for the
/// indices that `order` lists, and holds that segment's own chunk.
proof fn lemma_filled_slots(order: Seq<int>, chunks: Seq<Seq<u8>>, i: int)
    requires
        0 <= i < chunks.len(),
    ensures
        slots_filled(empty_slots(chunks.len() as int), order, chunks).len() == chunks.len(),
        slots_filled(empty_slots(chunks.len() as int), order, chunks)[i] == if order.contains(i) {
            Some(chunks[i])
        } else {
            None
        },
    decreases order.len(),
{
    if order.len() > 0 {
        let rest = order.drop_last();
        lemma_filled_slots(rest, chunks, i);
        if order.contains(i) {
            let k = choose|k: int| 0 <= k < order.len() && order[k] == i;
            if k < order.len() - 1 {
                assert(rest[k] == i);
                assert(rest.contains(i));
            }
        } else {
            if rest.contains(i) {
                let k = choose|k: int| 0 <= k < rest.len() && rest[k] == i;
                assert(order[k] == i);
            }
        }
    }
}

/// A permutation of `0..n` lists every index below `n`.
proof fn lemma_permutation_covers(order: Seq<int>, n: int)
    requires
        is_permutation(order, n),
    ensures
        forall|i: int| 0 <= i < n ==> order.contains(i),
{
    let range = vstd::set_lib::set_int_range(0, n);
    vstd::set_lib::lemma_int_range(0, n);
    order.unique_seq_to_set();
    assert(order.to_set().subset_of(range)) by {
        assert forall|x: int| order.to_set().contains(x) implies range.contains(x) by {
            let k = choose|k: int| 0 <= k < order.len() && order[k] == x;
            assert(0 <= order[k] < n);
        }
    }
    vstd::set_lib::lemma_set_subset_finite(range, order.to_set());
    vstd::set_lib::lemma_subset_equality(order.to_set(), range);
    assert forall|i: int| 0 <= i < n implies order.contains(i) by {
        assert(range.contains(i));
        assert(order.to_set().contains(i));
    }
}

/// Order invariance: in whatever order the segments complete, once each has
/// persisted its chunk every store exists and the merged bytes are the
/// chunks joined in ascending index order.
pub proof fn lemma_merge_order_invariant(chunks: Seq<Seq<u8>>, order: Seq<int>)
    requires
        is_permutation(order, chunks.len() as int),
    ensures
        all_present(
            slots_filled(empty_slots(chunks.len() as int), order, chunks),
            chunks.len() as int,
        ),
        concat_prefix(
            slots_filled(empty_slots(chunks.len() as int), order, chunks),
            chunks.len() as int,
        ) == joined(chunks),
{
    let n = chunks.len() as int;
    let filled = slots_filled(empty_slots(n), order, chunks);
    lemma_permutation_covers(order, n);
    assert forall|i: int| 0 <= i < n implies filled.len() == n && filled[i] == Some(
        chunks[i],
    ) by {
        lemma_filled_slots(order, chunks, i);
    }
    if n > 0 {
        lemma_filled_slots(order, chunks, 0);
    } else {
        assert(order =~= Seq::empty());
    }
    assert(filled =~= chunks.map_values(|c: Seq<u8>| Some(c)));
    lemma_concat_of_all(chunks, n);
    assert(chunks.take(n) =~= chunks);
}

} // verus!
