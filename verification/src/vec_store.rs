//! The single-node store: an ordered, tombstone-based container of tuples.
//!
//! The store is a sequence of slots, each either occupied by a tuple or a
//! tombstone left by a removal.  Writes append after running compaction;
//! reads and takes scan from the start and act on the first occupied slot
//! whose tuple matches the pattern.  The live-tuple count is tracked
//! incrementally, never recomputed by scanning.
//!
//! Compaction drops every tombstone once the live/total ratio falls below
//! the compaction margin; it preserves the relative order of occupied
//! slots, so query results never observe it
//! ([`lemma_compaction_preserves_reads`]).

use vstd::prelude::*;

use crate::error::Error;
use crate::query_tuple::{query_matches, QueryTuple};
use crate::types::{QueryModel, ValueModel};
use crate::store::Store;
use crate::tuple::Tuple;

verus! {

/// The model of one stored tuple: its sequence of value models.
pub type TupleModel = Seq<ValueModel>;

/// The model of a store: its slots in order (`None` is a tombstone) and its
/// compaction margin in hundredths.
pub struct StoreModel {
    pub slots: Seq<Option<TupleModel>>,
    pub compact_margin: u32,
}

/// The compaction margin used when none is chosen: hundredths, so 90 means
/// a live/total ratio of 0.90.
pub const DEFAULT_COMPACT_MARGIN: u32 = 90;

/// Whether a slot is occupied by a tuple that the pattern matches.
pub open spec fn slot_matches(slot: Option<TupleModel>, q: Seq<QueryModel>) -> bool {
    slot matches Some(t) && query_matches(q, t)
}

/// The tuples of the occupied slots, in slot order.
pub open spec fn live_tuples(slots: Seq<Option<TupleModel>>) -> Seq<TupleModel>
    decreases slots.len(),
{
    if slots.len() == 0 {
        Seq::empty()
    } else {
        let prefix = live_tuples(slots.drop_last());
        match slots.last() {
            Some(t) => prefix.push(t),
            None => prefix,
        }
    }
}

/// The number of occupied slots.
pub open spec fn live_count(slots: Seq<Option<TupleModel>>) -> nat {
    live_tuples(slots).len()
}

/// The slots after compaction: every tombstone dropped, occupied slots in
/// their original order.
pub open spec fn compacted(slots: Seq<Option<TupleModel>>) -> Seq<Option<TupleModel>> {
    live_tuples(slots).map_values(|t: TupleModel| Some(t))
}

/// The index of the first slot that the pattern matches, if any.
pub open spec fn spec_first_match(slots: Seq<Option<TupleModel>>, q: Seq<QueryModel>) -> Option<
    int,
>
    decreases slots.len(),
{
    if slots.len() == 0 {
        None
    } else {
        match spec_first_match(slots.drop_last(), q) {
            Some(i) => Some(i),
            None => if slot_matches(slots.last(), q) {
                Some(slots.len() - 1)
            } else {
                None
            },
        }
    }
}

/// What a non-destructive read returns: the tuple of the first matching
/// slot, or nothing.
pub open spec fn spec_read(slots: Seq<Option<TupleModel>>, q: Seq<QueryModel>) -> Option<
    TupleModel,
> {
    match spec_first_match(slots, q) {
        Some(i) => Some(slots[i]->Some_0),
        None => None,
    }
}

/// Whether a write must compact first: the live/total ratio has fallen
/// below the margin (in hundredths).  An empty store never compacts.
pub open spec fn spec_should_compact(m: StoreModel) -> bool {
    100 * live_count(m.slots) < m.compact_margin * m.slots.len()
}

/// What a write does: compact if due, then append the tuple as a new
/// occupied slot.
pub open spec fn spec_write(m: StoreModel, t: TupleModel) -> StoreModel {
    let base = if spec_should_compact(m) {
        compacted(m.slots)
    } else {
        m.slots
    };
    StoreModel { slots: base.push(Some(t)), compact_margin: m.compact_margin }
}

/// What a take does: tombstone the first matching slot and hand its tuple
/// back, or leave the store unchanged.
pub open spec fn spec_take(m: StoreModel, q: Seq<QueryModel>) -> (Option<TupleModel>, StoreModel) {
    match spec_first_match(m.slots, q) {
        Some(i) => (
            Some(m.slots[i]->Some_0),
            StoreModel { slots: m.slots.update(i, None), compact_margin: m.compact_margin },
        ),
        None => (None, m),
    }
}

/// The first matching slot is a match, and nothing before it is; when there
/// is none, no slot matches.
pub proof fn lemma_first_match_characterization(slots: Seq<Option<TupleModel>>, q: Seq<QueryModel>)
    ensures
        match spec_first_match(slots, q) {
            Some(i) => {
                &&& 0 <= i < slots.len()
                &&& slot_matches(slots[i], q)
                &&& forall|j: int| 0 <= j < i ==> !slot_matches(#[trigger] slots[j], q)
            },
            None => forall|j: int| 0 <= j < slots.len() ==> !slot_matches(#[trigger] slots[j], q),
        },
    decreases slots.len(),
{
    if slots.len() > 0 {
        let prefix = slots.drop_last();
        lemma_first_match_characterization(prefix, q);
        assert(forall|j: int| 0 <= j < prefix.len() ==> #[trigger] slots[j] == prefix[j]);
    }
}

/// A slot that matches with no match before it is the first match.
pub proof fn lemma_first_match_from_witness(
    slots: Seq<Option<TupleModel>>,
    q: Seq<QueryModel>,
    i: int,
)
    requires
        0 <= i < slots.len(),
        slot_matches(slots[i], q),
        forall|j: int| 0 <= j < i ==> !slot_matches(#[trigger] slots[j], q),
    ensures
        spec_first_match(slots, q) == Some(i),
{
    lemma_first_match_characterization(slots, q);
}

/// There are never more live tuples than slots.
pub proof fn lemma_live_count_le_len(slots: Seq<Option<TupleModel>>)
    ensures
        live_count(slots) <= slots.len(),
    decreases slots.len(),
{
    if slots.len() > 0 {
        lemma_live_count_le_len(slots.drop_last());
    }
}

/// Appending an occupied slot adds its tuple at the end of the live
/// sequence.
pub proof fn lemma_live_tuples_push(slots: Seq<Option<TupleModel>>, t: TupleModel)
    ensures
        live_tuples(slots.push(Some(t))) == live_tuples(slots).push(t),
{
    assert(slots.push(Some(t)).drop_last() =~= slots);
}

/// Tombstoning an occupied slot removes exactly one live tuple.
pub proof fn lemma_live_count_update_none(slots: Seq<Option<TupleModel>>, i: int)
    requires
        0 <= i < slots.len(),
        slots[i] is Some,
    ensures
        live_count(slots) == live_count(slots.update(i, None)) + 1,
    decreases slots.len(),
{
    let updated = slots.update(i, None);
    if i == slots.len() - 1 {
        assert(updated.drop_last() =~= slots.drop_last());
    } else {
        assert(updated.drop_last() =~= slots.drop_last().update(i, None));
        lemma_live_count_update_none(slots.drop_last(), i);
    }
}

/// The live tuples of an all-occupied sequence are exactly its contents.
proof fn lemma_live_tuples_all_occupied(ts: Seq<TupleModel>)
    ensures
        live_tuples(ts.map_values(|t: TupleModel| Some(t))) == ts,
    decreases ts.len(),
{
    let slots = ts.map_values(|t: TupleModel| Some(t));
    if ts.len() == 0 {
        assert(live_tuples(slots) =~= ts);
    } else {
        assert(slots.drop_last() =~= ts.drop_last().map_values(|t: TupleModel| Some(t)));
        lemma_live_tuples_all_occupied(ts.drop_last());
        assert(live_tuples(slots) =~= ts);
    }
}

/// Compaction keeps every live tuple, in order.
pub proof fn lemma_live_tuples_compacted(slots: Seq<Option<TupleModel>>)
    ensures
        live_tuples(compacted(slots)) == live_tuples(slots),
{
    lemma_live_tuples_all_occupied(live_tuples(slots));
}

/// The first match over a sequence of tuples, with no tombstones in play.
pub open spec fn first_tuple_match(ts: Seq<TupleModel>, q: Seq<QueryModel>) -> Option<TupleModel>
    decreases ts.len(),
{
    if ts.len() == 0 {
        None
    } else {
        match first_tuple_match(ts.drop_last(), q) {
            Some(t) => Some(t),
            None => if query_matches(q, ts.last()) {
                Some(ts.last())
            } else {
                None
            },
        }
    }
}

/// A read sees only the live tuples, in order: tombstones are skipped
/// transparently.
pub proof fn lemma_read_live(slots: Seq<Option<TupleModel>>, q: Seq<QueryModel>)
    ensures
        spec_read(slots, q) == first_tuple_match(live_tuples(slots), q),
    decreases slots.len(),
{
    if slots.len() > 0 {
        lemma_read_live(slots.drop_last(), q);
        lemma_first_match_characterization(slots.drop_last(), q);
        match spec_first_match(slots.drop_last(), q) {
            Some(i) => {
                assert(slots[i] == slots.drop_last()[i]);
                if slots.last() is Some {
                    assert(live_tuples(slots).drop_last() =~= live_tuples(slots.drop_last()));
                }
            },
            None => {
                if slots.last() is Some {
                    assert(live_tuples(slots).drop_last() =~= live_tuples(slots.drop_last()));
                }
            },
        }
    }
}

/// Compaction is not observable by queries: after dropping the tombstones,
/// every live tuple is still retrievable by the same patterns, and an
/// ambiguous match still returns the earliest-inserted tuple.
pub proof fn lemma_compaction_preserves_reads(slots: Seq<Option<TupleModel>>, q: Seq<QueryModel>)
    ensures
        live_tuples(compacted(slots)) == live_tuples(slots),
        spec_read(compacted(slots), q) == spec_read(slots, q),
{
    lemma_live_tuples_compacted(slots);
    lemma_read_live(slots, q);
    lemma_read_live(compacted(slots), q);
}

/// Write/read round trip: a write always grows the live count by exactly
/// one, and afterwards any matching pattern finds a tuple; if no tuple of
/// the old store matched the pattern, the tuple found is the one written.
pub proof fn lemma_write_then_read(m: StoreModel, t: TupleModel, q: Seq<QueryModel>)
    requires
        query_matches(q, t),
    ensures
        live_count(spec_write(m, t).slots) == live_count(m.slots) + 1,
        spec_read(spec_write(m, t).slots, q) is Some,
        (forall|j: int|
            0 <= j < m.slots.len() ==> !slot_matches(#[trigger] m.slots[j], q)) ==> spec_read(
            spec_write(m, t).slots,
            q,
        ) == Some(t),
    decreases m.slots.len(),
{
    let base = if spec_should_compact(m) {
        compacted(m.slots)
    } else {
        m.slots
    };
    let written = base.push(Some(t));
    lemma_live_tuples_compacted(m.slots);
    lemma_live_tuples_push(base, t);
    lemma_first_match_characterization(written, q);
    assert(slot_matches(written[written.len() - 1], q));
    if forall|j: int| 0 <= j < m.slots.len() ==> !slot_matches(#[trigger] m.slots[j], q) {
        lemma_compaction_preserves_reads(m.slots, q);
        lemma_first_match_characterization(m.slots, q);
        lemma_first_match_characterization(base, q);
        assert(forall|j: int| 0 <= j < base.len() ==> !slot_matches(#[trigger] base[j], q));
        assert(forall|j: int|
            0 <= j < written.len() - 1 ==> !slot_matches(#[trigger] written[j], q));
        lemma_first_match_from_witness(written, q, written.len() - 1);
    }
}

/// Take is destructive and single-consumer: writing a tuple into a store
/// with no other match for the pattern and then taking by that pattern
/// hands the tuple back, restores the old live count, and leaves nothing
/// for a later read or take of the same pattern to find.
pub proof fn lemma_write_take_round_trip(m: StoreModel, t: TupleModel, q: Seq<QueryModel>)
    requires
        query_matches(q, t),
        forall|j: int| 0 <= j < m.slots.len() ==> !slot_matches(#[trigger] m.slots[j], q),
    ensures
        spec_take(spec_write(m, t), q).0 == Some(t),
        live_count(spec_take(spec_write(m, t), q).1.slots) == live_count(m.slots),
        spec_read(spec_take(spec_write(m, t), q).1.slots, q) is None,
        spec_take(spec_take(spec_write(m, t), q).1, q).0 is None,
{
    let written = spec_write(m, t);
    lemma_write_then_read(m, t, q);
    let base = if spec_should_compact(m) {
        compacted(m.slots)
    } else {
        m.slots
    };
    lemma_compaction_preserves_reads(m.slots, q);
    lemma_first_match_characterization(m.slots, q);
    lemma_first_match_characterization(base, q);
    assert(forall|j: int| 0 <= j < base.len() ==> !slot_matches(#[trigger] base[j], q));
    let last = written.slots.len() - 1;
    lemma_first_match_from_witness(written.slots, q, last);
    let after = spec_take(written, q).1;
    lemma_live_count_update_none(written.slots, last);
    assert(forall|j: int| 0 <= j < after.slots.len() ==> !slot_matches(#[trigger] after.slots[j], q));
    lemma_first_match_characterization(after.slots, q);
    if spec_first_match(after.slots, q) is Some {
        assert(false);
    }
}

/// At most one winner: when exactly one slot matches the pattern, one take
/// wins that tuple, and every later take or read of the same pattern comes
/// back empty — however many callers race, serialized takes yield exactly
/// one `Some`.
pub proof fn lemma_take_single_winner(m: StoreModel, q: Seq<QueryModel>, i: int)
    requires
        0 <= i < m.slots.len(),
        slot_matches(m.slots[i], q),
        forall|j: int| 0 <= j < m.slots.len() && j != i ==> !slot_matches(#[trigger] m.slots[j], q),
    ensures
        spec_take(m, q).0 == Some(m.slots[i]->Some_0),
        spec_read(spec_take(m, q).1.slots, q) is None,
        spec_take(spec_take(m, q).1, q).0 is None,
{
    lemma_first_match_from_witness(m.slots, q, i);
    let after = spec_take(m, q).1;
    assert(forall|j: int| 0 <= j < after.slots.len() ==> !slot_matches(#[trigger] after.slots[j], q));
    lemma_first_match_characterization(after.slots, q);
    if spec_first_match(after.slots, q) is Some {
        assert(false);
    }
}

/// An ordered, tombstone-based tuple store backed by a vector of slots.
#[derive(Debug)]
pub struct VecStore {
    inner: Vec<Option<Tuple>>,
    tuple_count: usize,
    compact_margin: u32,
}

impl View for VecStore {
    type V = StoreModel;

    closed spec fn view(&self) -> StoreModel {
        StoreModel { slots: self.inner.deep_view(), compact_margin: self.compact_margin }
    }
}

impl VecStore {
    #[verifier::type_invariant]
    spec fn wf(self) -> bool {
        self.tuple_count == live_count(self.view().slots)
    }

    /// The number of live tuples, tracked incrementally.
    pub fn tuple_count(&self) -> (r: usize)
        ensures
            r == live_count(self@.slots),
    {
        proof {
            use_type_invariant(&*self);
        }
        self.tuple_count
    }

    /// The number of slots, tombstones included.
    pub(crate) fn num_slots(&self) -> (r: usize)
        ensures
            r == self@.slots.len(),
    {
        self.inner.len()
    }

    /// The slot at one position.
    pub(crate) fn slot_at(&self, index: usize) -> (r: &Option<Tuple>)
        requires
            index < self@.slots.len(),
        ensures
            r.deep_view() == self@.slots[index as int],
    {
        &self.inner[index]
    }

    /// A store over the given slots, counting the live tuples.
    pub(crate) fn from_parts(inner: Vec<Option<Tuple>>, compact_margin: u32) -> (r: VecStore)
        ensures
            r@.slots == inner.deep_view(),
            r@.compact_margin == compact_margin,
    {
        let mut count: usize = 0;
        let mut i: usize = 0;
        while i < inner.len()
            invariant
                i <= inner@.len(),
                count == live_count(inner.deep_view().take(i as int)),
                count <= i,
            decreases inner@.len() - i,
        {
            proof {
                assert(inner.deep_view().take(i + 1).drop_last() =~= inner.deep_view().take(
                    i as int,
                ));
                assert(inner.deep_view().take(i + 1).last() == inner.deep_view()[i as int]);
            }
            if inner[i].is_some() {
                count += 1;
            }
            i += 1;
        }
        proof {
            assert(inner.deep_view().take(inner.deep_view().len() as int) =~= inner.deep_view());
        }
        VecStore { inner, tuple_count: count, compact_margin }
    }

    /// The compaction margin, in hundredths of the live/total ratio.
    pub fn compact_margin(&self) -> (r: u32)
        ensures
            r == self@.compact_margin,
    {
        self.compact_margin
    }

    /// Starts building a store with a chosen compaction margin.
    pub fn builder() -> (r: VecStoreBuilder)
        ensures
            r@ == DEFAULT_COMPACT_MARGIN,
    {
        VecStoreBuilder::default()
    }

    /// Whether a write must compact first.
    fn should_compact(&self) -> (r: bool)
        ensures
            r == spec_should_compact(self@),
    {
        proof {
            use_type_invariant(&*self);
            lemma_live_count_le_len(self@.slots);
        }
        let count = self.tuple_count as u128;
        let margin = self.compact_margin as u128;
        let total = self.inner.len() as u128;
        proof {
            assert(margin * total < 0x1_0000_0000 * 0x1_0000_0000_0000_0000_0000_0000) by (nonlinear_arith)
                requires
                    margin < 0x1_0000_0000,
                    total < 0x1_0000_0000_0000_0000_0000_0000,
            ;
        }
        count * 100 < margin * total
    }

    /// Drops every tombstone when the live/total ratio has fallen below the
    /// margin; the relative order of occupied slots is preserved.
    fn compact(&mut self)
        ensures
            final(self)@.slots == if spec_should_compact(old(self)@) {
                compacted(old(self)@.slots)
            } else {
                old(self)@.slots
            },
            final(self)@.compact_margin == old(self)@.compact_margin,
            live_tuples(final(self)@.slots) == live_tuples(old(self)@.slots),
            live_count(final(self)@.slots) == live_count(old(self)@.slots),
            forall|q: Seq<QueryModel>|
                spec_read(final(self)@.slots, q) == spec_read(#[trigger] old(self)@.slots, q),
    {
        proof {
            use_type_invariant(&*self);
            assert forall|q: Seq<QueryModel>|
                spec_read(compacted(self@.slots), q) == spec_read(#[trigger] self@.slots, q) by {
                lemma_compaction_preserves_reads(self@.slots, q);
            }
            lemma_live_tuples_compacted(self@.slots);
        }
        if self.should_compact() {
            let ghost old_slots = self@.slots;
            let mut survivors: Vec<Option<Tuple>> = Vec::new();
            let mut i: usize = 0;
            while i < self.inner.len()
                invariant
                    i <= self.inner@.len(),
                    self@.slots == old_slots,
                    survivors.deep_view() =~= compacted(old_slots.take(i as int)),
                decreases self.inner@.len() - i,
            {
                proof {
                    assert(old_slots.take(i + 1).drop_last() =~= old_slots.take(i as int));
                    assert(old_slots.take(i + 1).last() == old_slots[i as int]);
                }
                match &self.inner[i] {
                    Some(tuple) => {
                        survivors.push(Some(tuple.clone()));
                        proof {
                            assert(live_tuples(old_slots.take(i + 1)) == live_tuples(
                                old_slots.take(i as int),
                            ).push(tuple@));
                            assert(compacted(old_slots.take(i + 1)) =~= compacted(
                                old_slots.take(i as int),
                            ).push(Some(tuple@)));
                            assert(survivors.deep_view() =~= compacted(old_slots.take(i + 1)));
                        }
                    },
                    None => {
                        proof {
                            assert(live_tuples(old_slots.take(i + 1)) == live_tuples(
                                old_slots.take(i as int),
                            ));
                            assert(survivors.deep_view() =~= compacted(old_slots.take(i + 1)));
                        }
                    },
                }
                i += 1;
            }
            proof {
                assert(old_slots.take(old_slots.len() as int) =~= old_slots);
                lemma_live_tuples_compacted(old_slots);
                lemma_live_count_le_len(compacted(old_slots));
            }
            self.inner = survivors;
        }
    }

    /// The index of the first occupied slot whose tuple matches the pattern.
    fn index_of(&self, query_tuple: &QueryTuple) -> (r: Option<usize>)
        ensures
            match r {
                Some(i) => spec_first_match(self@.slots, query_tuple@) == Some(i as int),
                None => spec_first_match(self@.slots, query_tuple@) is None,
            },
    {
        let mut i: usize = 0;
        while i < self.inner.len()
            invariant
                i <= self.inner@.len(),
                forall|j: int| 0 <= j < i ==> !slot_matches(#[trigger] self@.slots[j], query_tuple@),
            decreases self.inner@.len() - i,
        {
            match &self.inner[i] {
                Some(tuple) => {
                    if query_tuple.matches(tuple) {
                        proof {
                            lemma_first_match_from_witness(self@.slots, query_tuple@, i as int);
                        }
                        return Some(i);
                    }
                },
                None => {},
            }
            i += 1;
        }
        proof {
            lemma_first_match_characterization(self@.slots, query_tuple@);
            if spec_first_match(self@.slots, query_tuple@) is Some {
                assert(false);
            }
        }
        None
    }
}

impl Default for VecStore {
    /// An empty store with the default compaction margin.
    fn default() -> (r: Self)
        ensures
            r@.slots == Seq::<Option<TupleModel>>::empty(),
            r@.compact_margin == DEFAULT_COMPACT_MARGIN,
    {
        let r = VecStore {
            inner: Vec::new(),
            tuple_count: 0,
            compact_margin: DEFAULT_COMPACT_MARGIN,
        };
        proof {
            assert(r@.slots =~= Seq::<Option<TupleModel>>::empty());
        }
        r
    }
}

impl Store for VecStore {
    /// Never fails; the count is the number of occupied slots.
    fn size(&self) -> (r: Result<usize, Error>)
        ensures
            r matches Ok(n) && n == live_count(self@.slots),
    {
        proof {
            use_type_invariant(&*self);
        }
        Ok(self.tuple_count)
    }

    /// Never fails: compacts if due, appends the tuple as a new occupied
    /// slot, and grows the live count by one.
    fn write(&mut self, tuple: &Tuple) -> (r: Result<(), Error>)
        ensures
            r matches Ok(()),
            final(self)@ == spec_write(old(self)@, tuple@),
    {
        proof {
            use_type_invariant(&*self);
        }
        self.compact();
        proof {
            use_type_invariant(&*self);
            lemma_live_tuples_push(self@.slots, tuple@);
            lemma_live_count_le_len(self@.slots.push(Some(tuple@)));
        }
        let ghost before = *self;
        let mut tmp = VecStore {
            inner: Vec::new(),
            tuple_count: 0,
            compact_margin: self.compact_margin,
        };
        core::mem::swap(self, &mut tmp);
        let VecStore { mut inner, tuple_count, compact_margin } = tmp;
        inner.push(Some(tuple.clone()));
        let new_len = inner.len();
        proof {
            assert(inner.deep_view() =~= before@.slots.push(Some(tuple@)));
            assert(tuple_count + 1 == live_count(inner.deep_view()));
            assert(live_count(inner.deep_view()) <= new_len);
        }
        *self = VecStore { inner, tuple_count: tuple_count + 1, compact_margin };
        Ok(())
    }

    /// Never fails; returns a copy of the first matching tuple, or nothing
    /// exactly when no occupied slot matches.
    fn read(&self, query_tuple: &QueryTuple) -> (r: Result<Option<Tuple>, Error>)
        ensures
            r matches Ok(o) && o.deep_view() == spec_read(self@.slots, query_tuple@),
            (r matches Ok(Some(t)) ==> query_matches(query_tuple@, t@)),
    {
        proof {
            lemma_first_match_characterization(self@.slots, query_tuple@);
        }
        match self.index_of(query_tuple) {
            Some(index) => match &self.inner[index] {
                Some(tuple) => Ok(Some(tuple.clone())),
                None => {
                    proof {
                        assert(false);
                    }
                    Ok(None)
                },
            },
            None => Ok(None),
        }
    }

    /// Never fails; tombstones the first matching slot and hands its tuple
    /// back, or returns nothing exactly when no occupied slot matches.
    fn take(&mut self, query_tuple: &QueryTuple) -> (r: Result<Option<Tuple>, Error>)
        ensures
            r matches Ok(o) && o.deep_view() == spec_take(old(self)@, query_tuple@).0,
            final(self)@ == spec_take(old(self)@, query_tuple@).1,
            (r matches Ok(Some(t)) ==> query_matches(query_tuple@, t@)),
    {
        proof {
            use_type_invariant(&*self);
            lemma_first_match_characterization(self@.slots, query_tuple@);
        }
        match self.index_of(query_tuple) {
            Some(index) => {
                proof {
                    lemma_live_count_update_none(self@.slots, index as int);
                }
                let taken = match &self.inner[index] {
                    Some(tuple) => tuple.clone(),
                    None => {
                        proof {
                            assert(false);
                        }
                        Tuple::builder().build()
                    },
                };
                let ghost before = *self;
                let mut tmp = VecStore {
                    inner: Vec::new(),
                    tuple_count: 0,
                    compact_margin: self.compact_margin,
                };
                core::mem::swap(self, &mut tmp);
                let VecStore { mut inner, tuple_count, compact_margin } = tmp;
                inner.set(index, None);
                proof {
                    assert(inner.deep_view() =~= before@.slots.update(index as int, None));
                }
                *self = VecStore { inner, tuple_count: tuple_count - 1, compact_margin };
                Ok(Some(taken))
            },
            None => Ok(None),
        }
    }
}

/// Builds a [`VecStore`], choosing the compaction margin.
pub struct VecStoreBuilder {
    compact_margin: u32,
}

impl View for VecStoreBuilder {
    type V = u32;

    closed spec fn view(&self) -> u32 {
        self.compact_margin
    }
}

impl Default for VecStoreBuilder {
    fn default() -> (r: Self)
        ensures
            r@ == DEFAULT_COMPACT_MARGIN,
    {
        VecStoreBuilder { compact_margin: DEFAULT_COMPACT_MARGIN }
    }
}

impl VecStoreBuilder {
    /// Chooses the compaction margin, in hundredths of the live/total ratio.
    pub fn compact_margin(self, compact_margin: u32) -> (r: Self)
        ensures
            r@ == compact_margin,
    {
        VecStoreBuilder { compact_margin }
    }

    /// Finishes: an empty store with the chosen margin.
    pub fn build(self) -> (r: VecStore)
        ensures
            r@.slots == Seq::<Option<TupleModel>>::empty(),
            r@.compact_margin == self@,
    {
        let r = VecStore { inner: Vec::new(), tuple_count: 0, compact_margin: self.compact_margin };
        proof {
            assert(r@.slots =~= Seq::<Option<TupleModel>>::empty());
        }
        r
    }
}

} // verus!
