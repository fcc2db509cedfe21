//! The replicated state machine.
//!
//! An external consensus module delivers committed log entries in order;
//! [`StateMachine::apply`] folds them into the store deterministically, one
//! response per entry, and records the last applied log position before
//! moving to the next entry.  Snapshots carry the whole store as bytes in
//! the format of [`crate::codec`]; building one installs it as the current
//! snapshot, and installing one replaces the whole replicated state.
//!
//! Everything here is a pure function of the delivered entries, which is
//! what replication needs: two replicas that apply the same committed
//! entries hold byte-identical stores ([`lemma_apply_deterministic`]).

use vstd::prelude::*;

use crate::codec::{
    decode_store, encode_store, spec_decode_store, spec_encode_store, store_bounded,
};
use crate::query_tuple::QueryTuple;
use crate::store::Store;
use crate::tuple::Tuple;
use crate::types::{QueryModel, ValueModel};
use crate::vec_store::{spec_read, spec_take, spec_write, StoreModel, TupleModel, VecStore};

verus! {

/// The position of one entry in the replicated log: the leader that wrote
/// it and its index.
#[derive(Debug, PartialEq, Eq, Structural, Clone, Copy)]
pub struct LogId {
    pub term: u64,
    pub node_id: u64,
    pub index: u64,
}

/// One node of the cluster: its identifier and its address.
#[derive(Debug, PartialEq)]
pub struct MemberNode {
    pub id: u64,
    pub addr: String,
}

/// The model of a [`MemberNode`].
pub struct MemberNodeModel {
    pub id: u64,
    pub addr: Seq<char>,
}

impl View for MemberNode {
    type V = MemberNodeModel;

    open spec fn view(&self) -> MemberNodeModel {
        MemberNodeModel { id: self.id, addr: self.addr@ }
    }
}

impl DeepView for MemberNode {
    type V = MemberNodeModel;

    open spec fn deep_view(&self) -> MemberNodeModel {
        self.view()
    }
}

impl Clone for MemberNode {
    fn clone(&self) -> (r: Self)
        ensures
            r@ == self@,
    {
        MemberNode { id: self.id, addr: self.addr.clone() }
    }
}

/// A membership configuration: the voter configurations in effect and the
/// known nodes.
#[derive(Debug, PartialEq)]
pub struct Membership {
    pub configs: Vec<Vec<u64>>,
    pub nodes: Vec<MemberNode>,
}

/// The model of a [`Membership`].
pub struct MembershipModel {
    pub configs: Seq<Seq<u64>>,
    pub nodes: Seq<MemberNodeModel>,
}

impl View for Membership {
    type V = MembershipModel;

    open spec fn view(&self) -> MembershipModel {
        MembershipModel { configs: self.configs.deep_view(), nodes: self.nodes.deep_view() }
    }
}

impl DeepView for Membership {
    type V = MembershipModel;

    open spec fn deep_view(&self) -> MembershipModel {
        self.view()
    }
}

fn clone_ids(ids: &Vec<u64>) -> (r: Vec<u64>)
    ensures
        r@ == ids@,
{
    let mut out: Vec<u64> = Vec::new();
    let mut i: usize = 0;
    while i < ids.len()
        invariant
            i <= ids@.len(),
            out@ == ids@.take(i as int),
        decreases ids@.len() - i,
    {
        out.push(ids[i]);
        proof {
            assert(ids@.take(i + 1) =~= ids@.take(i as int).push(ids@[i as int]));
        }
        i += 1;
    }
    proof {
        assert(ids@.take(ids@.len() as int) =~= ids@);
    }
    out
}

impl Clone for Membership {
    fn clone(&self) -> (r: Self)
        ensures
            r@ == self@,
    {
        let mut configs: Vec<Vec<u64>> = Vec::new();
        let mut i: usize = 0;
        while i < self.configs.len()
            invariant
                i <= self.configs@.len(),
                configs.deep_view() =~~= self.configs.deep_view().take(i as int),
            decreases self.configs@.len() - i,
        {
            configs.push(clone_ids(&self.configs[i]));
            proof {
                assert(self.configs.deep_view().take(i + 1) =~= self.configs.deep_view().take(
                    i as int,
                ).push(self.configs.deep_view()[i as int]));
                assert(configs.deep_view() =~~= self.configs.deep_view().take(i + 1));
            }
            i += 1;
        }
        let mut nodes: Vec<MemberNode> = Vec::new();
        let mut j: usize = 0;
        while j < self.nodes.len()
            invariant
                j <= self.nodes@.len(),
                nodes.deep_view() =~= self.nodes.deep_view().take(j as int),
            decreases self.nodes@.len() - j,
        {
            nodes.push(self.nodes[j].clone());
            proof {
                assert(self.nodes.deep_view().take(j + 1) =~= self.nodes.deep_view().take(
                    j as int,
                ).push(self.nodes.deep_view()[j as int]));
                assert(nodes.deep_view() =~= self.nodes.deep_view().take(j + 1));
            }
            j += 1;
        }
        let r = Membership { configs, nodes };
        proof {
            assert(self.configs.deep_view().take(self.configs.deep_view().len() as int)
                =~= self.configs.deep_view());
            assert(self.nodes.deep_view().take(self.nodes.deep_view().len() as int)
                =~= self.nodes.deep_view());
        }
        r
    }
}

impl Default for Membership {
    /// The empty configuration of a node that has not joined a cluster.
    fn default() -> (r: Self)
        ensures
            r@.configs.len() == 0,
            r@.nodes.len() == 0,
    {
        let r = Membership { configs: Vec::new(), nodes: Vec::new() };
        proof {
            assert(r@.configs =~= Seq::<Seq<u64>>::empty());
            assert(r@.nodes =~= Seq::<MemberNodeModel>::empty());
        }
        r
    }
}

/// A membership configuration together with the log position that set it.
#[derive(Debug, PartialEq)]
pub struct StoredMembership {
    pub log_id: Option<LogId>,
    pub membership: Membership,
}

/// The model of a [`StoredMembership`].
pub struct StoredMembershipModel {
    pub log_id: Option<LogId>,
    pub membership: MembershipModel,
}

impl View for StoredMembership {
    type V = StoredMembershipModel;

    open spec fn view(&self) -> StoredMembershipModel {
        StoredMembershipModel { log_id: self.log_id, membership: self.membership@ }
    }
}

impl Clone for StoredMembership {
    fn clone(&self) -> (r: Self)
        ensures
            r@ == self@,
    {
        StoredMembership { log_id: self.log_id, membership: self.membership.clone() }
    }
}

impl Default for StoredMembership {
    fn default() -> (r: Self)
        ensures
            r@.log_id is None,
            r@.membership.configs.len() == 0,
            r@.membership.nodes.len() == 0,
    {
        StoredMembership { log_id: None, membership: Membership::default() }
    }
}

/// A replicated command: write a tuple, or match-and-remove by a pattern.
#[derive(Debug, PartialEq)]
pub enum Request {
    Write { tuple: Tuple },
    Take { query: QueryTuple },
}

/// The model of a [`Request`].
pub enum RequestModel {
    Write { tuple: TupleModel },
    Take { query: Seq<QueryModel> },
}

impl View for Request {
    type V = RequestModel;

    open spec fn view(&self) -> RequestModel {
        match self {
            Request::Write { tuple } => RequestModel::Write { tuple: tuple@ },
            Request::Take { query } => RequestModel::Take { query: query@ },
        }
    }
}

/// The answer to one applied entry: the tuple written or removed, if any.
#[derive(Debug, PartialEq)]
pub struct Response {
    pub value: Option<Tuple>,
}

impl View for Response {
    type V = Option<TupleModel>;

    open spec fn view(&self) -> Option<TupleModel> {
        self.value.deep_view()
    }
}

impl DeepView for Response {
    type V = Option<TupleModel>;

    open spec fn deep_view(&self) -> Option<TupleModel> {
        self.view()
    }
}

/// What one committed log entry carries.
#[derive(Debug, PartialEq)]
pub enum EntryPayload {
    /// A no-op marker written by a new leader.
    Blank,
    /// An application command.
    Normal(Request),
    /// A membership change.
    Membership(Membership),
}

/// The model of an [`EntryPayload`].
pub enum EntryPayloadModel {
    Blank,
    Normal(RequestModel),
    Membership(MembershipModel),
}

/// One committed log entry: its position and its payload.
#[derive(Debug, PartialEq)]
pub struct Entry {
    pub log_id: LogId,
    pub payload: EntryPayload,
}

/// The model of an [`Entry`].
pub struct EntryModel {
    pub log_id: LogId,
    pub payload: EntryPayloadModel,
}

impl View for Entry {
    type V = EntryModel;

    open spec fn view(&self) -> EntryModel {
        EntryModel {
            log_id: self.log_id,
            payload: match &self.payload {
                EntryPayload::Blank => EntryPayloadModel::Blank,
                EntryPayload::Normal(req) => EntryPayloadModel::Normal(req@),
                EntryPayload::Membership(m) => EntryPayloadModel::Membership(m@),
            },
        }
    }
}

impl DeepView for Entry {
    type V = EntryModel;

    open spec fn deep_view(&self) -> EntryModel {
        self.view()
    }
}

/// The identity of a snapshot: the log position it covers and the build
/// counter, monotonically increasing over a node's lifetime.
#[derive(Debug, PartialEq, Clone, Copy)]
pub struct SnapshotId {
    pub log_id: Option<LogId>,
    pub counter: u64,
}

/// What a snapshot covers: the log position, the membership, and the
/// snapshot's identity.
#[derive(Debug, PartialEq)]
pub struct SnapshotMeta {
    pub last_log_id: Option<LogId>,
    pub last_membership: StoredMembership,
    pub snapshot_id: SnapshotId,
}

/// The model of a [`SnapshotMeta`].
pub struct SnapshotMetaModel {
    pub last_log_id: Option<LogId>,
    pub last_membership: StoredMembershipModel,
    pub snapshot_id: SnapshotId,
}

impl View for SnapshotMeta {
    type V = SnapshotMetaModel;

    open spec fn view(&self) -> SnapshotMetaModel {
        SnapshotMetaModel {
            last_log_id: self.last_log_id,
            last_membership: self.last_membership@,
            snapshot_id: self.snapshot_id,
        }
    }
}

impl Clone for SnapshotMeta {
    fn clone(&self) -> (r: Self)
        ensures
            r@ == self@,
    {
        SnapshotMeta {
            last_log_id: self.last_log_id,
            last_membership: self.last_membership.clone(),
            snapshot_id: self.snapshot_id,
        }
    }
}

/// A built or received snapshot: its metadata and the store as bytes.
#[derive(Debug, PartialEq)]
pub struct StoredSnapshot {
    pub meta: SnapshotMeta,
    pub data: Vec<u8>,
}

/// The model of a [`StoredSnapshot`].
pub struct StoredSnapshotModel {
    pub meta: SnapshotMetaModel,
    pub data: Seq<u8>,
}

impl View for StoredSnapshot {
    type V = StoredSnapshotModel;

    open spec fn view(&self) -> StoredSnapshotModel {
        StoredSnapshotModel { meta: self.meta@, data: self.data@ }
    }
}

fn clone_bytes(bytes: &Vec<u8>) -> (r: Vec<u8>)
    ensures
        r@ == bytes@,
{
    let mut out: Vec<u8> = Vec::new();
    let mut i: usize = 0;
    while i < bytes.len()
        invariant
            i <= bytes@.len(),
            out@ == bytes@.take(i as int),
        decreases bytes@.len() - i,
    {
        out.push(bytes[i]);
        proof {
            assert(bytes@.take(i + 1) =~= bytes@.take(i as int).push(bytes@[i as int]));
        }
        i += 1;
    }
    proof {
        assert(bytes@.take(bytes@.len() as int) =~= bytes@);
    }
    out
}

impl Clone for StoredSnapshot {
    fn clone(&self) -> (r: Self)
        ensures
            r@ == self@,
    {
        StoredSnapshot { meta: self.meta.clone(), data: clone_bytes(&self.data) }
    }
}

/// The error a snapshot operation reports to the consensus module.
#[derive(Debug, PartialEq)]
pub enum StorageError {
    /// The snapshot bytes are not a complete, well-formed encoding.
    ReadSnapshot,
}

/// The replicated state: the last applied log position, the membership in
/// effect, and the store.
#[derive(Debug)]
pub struct StateMachineData {
    pub last_applied_log: Option<LogId>,
    pub last_membership: StoredMembership,
    pub data: VecStore,
}

/// The model of the replicated state.
pub struct StateModel {
    pub last_applied_log: Option<LogId>,
    pub last_membership: StoredMembershipModel,
    pub store: StoreModel,
}

impl View for StateMachineData {
    type V = StateModel;

    open spec fn view(&self) -> StateModel {
        StateModel {
            last_applied_log: self.last_applied_log,
            last_membership: self.last_membership@,
            store: self.data@,
        }
    }
}

impl Default for StateMachineData {
    /// The state of a node that has applied nothing: no log position, the
    /// empty membership, the empty store.
    fn default() -> (r: Self)
        ensures
            r@.last_applied_log is None,
            r@.last_membership.log_id is None,
            r@.last_membership.membership.configs.len() == 0,
            r@.last_membership.membership.nodes.len() == 0,
            r@.store.slots.len() == 0,
            r@.store.compact_margin == crate::vec_store::DEFAULT_COMPACT_MARGIN,
    {
        StateMachineData {
            last_applied_log: None,
            last_membership: StoredMembership::default(),
            data: VecStore::default(),
        }
    }
}

/// What applying one entry does to the state, and the response it yields.
///
/// Whatever the payload, the last applied log position advances to the
/// entry's position before the next entry is considered.
pub open spec fn spec_apply_one(s: StateModel, e: EntryModel) -> (StateModel, Option<TupleModel>) {
    match e.payload {
        EntryPayloadModel::Blank => (
            StateModel {
                last_applied_log: Some(e.log_id),
                last_membership: s.last_membership,
                store: s.store,
            },
            None,
        ),
        EntryPayloadModel::Normal(RequestModel::Write { tuple }) => (
            StateModel {
                last_applied_log: Some(e.log_id),
                last_membership: s.last_membership,
                store: spec_write(s.store, tuple),
            },
            Some(tuple),
        ),
        EntryPayloadModel::Normal(RequestModel::Take { query }) => (
            StateModel {
                last_applied_log: Some(e.log_id),
                last_membership: s.last_membership,
                store: spec_take(s.store, query).1,
            },
            spec_take(s.store, query).0,
        ),
        EntryPayloadModel::Membership(m) => (
            StateModel {
                last_applied_log: Some(e.log_id),
                last_membership: StoredMembershipModel { log_id: Some(e.log_id), membership: m },
                store: s.store,
            },
            None,
        ),
    }
}

/// What applying a sequence of entries does, entry by entry, in order.
pub open spec fn spec_apply_seq(s: StateModel, entries: Seq<EntryModel>) -> (
    StateModel,
    Seq<Option<TupleModel>>,
)
    decreases entries.len(),
{
    if entries.len() == 0 {
        (s, Seq::empty())
    } else {
        let (s1, first) = spec_apply_one(s, entries[0]);
        let (s2, rest) = spec_apply_seq(s1, entries.drop_first());
        (s2, seq![first] + rest)
    }
}

/// The state machine: the replicated state, the snapshot build counter, and
/// the current snapshot slot.
#[derive(Debug)]
pub struct StateMachine {
    state_machine: StateMachineData,
    snapshot_idx: u64,
    current_snapshot: Option<StoredSnapshot>,
}

/// The model of a [`StateMachine`].
pub struct MachineModel {
    pub state: StateModel,
    pub snapshot_idx: u64,
    pub current_snapshot: Option<StoredSnapshotModel>,
}

impl View for StateMachine {
    type V = MachineModel;

    closed spec fn view(&self) -> MachineModel {
        MachineModel {
            state: self.state_machine@,
            snapshot_idx: self.snapshot_idx,
            current_snapshot: match &self.current_snapshot {
                Some(s) => Some(s@),
                None => None,
            },
        }
    }
}

impl Default for StateMachine {
    /// A fresh state machine: nothing applied, no snapshot, counter zero.
    fn default() -> (r: Self)
        ensures
            r@.state.last_applied_log is None,
            r@.state.last_membership.log_id is None,
            r@.state.last_membership.membership.configs.len() == 0,
            r@.state.last_membership.membership.nodes.len() == 0,
            r@.state.store.slots.len() == 0,
            r@.state.store.compact_margin == crate::vec_store::DEFAULT_COMPACT_MARGIN,
            r@.snapshot_idx == 0,
            r@.current_snapshot is None,
    {
        StateMachine {
            state_machine: StateMachineData::default(),
            snapshot_idx: 0,
            current_snapshot: None,
        }
    }
}

impl StateMachine {
    /// The last applied log position and the membership in effect, as one
    /// consistent pair.
    pub fn applied_state(&self) -> (r: (Option<LogId>, StoredMembership))
        ensures
            r.0 == self@.state.last_applied_log,
            r.1@ == self@.state.last_membership,
    {
        (self.state_machine.last_applied_log, self.state_machine.last_membership.clone())
    }

    /// Applies committed entries in order: one response per entry, in input
    /// order, and the last applied log position advances entry by entry.
    ///
    /// This is a pure fold of [`spec_apply_one`] over the entries, so a
    /// replica that applies the same committed entries reaches the same
    /// state.
    pub fn apply(&mut self, entries: Vec<Entry>) -> (res: Vec<Response>)
        ensures
            final(self)@.state == spec_apply_seq(old(self)@.state, entries.deep_view()).0,
            res.deep_view() == spec_apply_seq(old(self)@.state, entries.deep_view()).1,
            res@.len() == entries@.len(),
            final(self)@.snapshot_idx == old(self)@.snapshot_idx,
            final(self)@.current_snapshot == old(self)@.current_snapshot,
    {
        let ghost start = self@.state;
        let ghost models = entries.deep_view();
        let mut res: Vec<Response> = Vec::new();
        let mut i: usize = 0;
        proof {
            assert(models.skip(0) =~= models);
            assert(res.deep_view() =~= Seq::<Option<TupleModel>>::empty());
            assert(res.deep_view() + spec_apply_seq(start, models).1 =~= spec_apply_seq(
                start,
                models,
            ).1);
        }
        while i < entries.len()
            invariant
                i <= entries@.len(),
                models == entries.deep_view(),
                res@.len() == i,
                spec_apply_seq(start, models).0 == spec_apply_seq(
                    self@.state,
                    models.skip(i as int),
                ).0,
                spec_apply_seq(start, models).1 == res.deep_view() + spec_apply_seq(
                    self@.state,
                    models.skip(i as int),
                ).1,
                self@.snapshot_idx == old(self)@.snapshot_idx,
                self@.current_snapshot == old(self)@.current_snapshot,
            decreases entries@.len() - i,
        {
            let ghost state_pre = self@.state;
            let ghost res_pre = res.deep_view();
            proof {
                assert(models.skip(i as int)[0] == models[i as int]);
                assert(models.skip(i as int).drop_first() =~= models.skip(i + 1));
            }
            let entry = &entries[i];
            self.state_machine.last_applied_log = Some(entry.log_id);
            match &entry.payload {
                EntryPayload::Blank => {
                    res.push(Response { value: None });
                },
                EntryPayload::Normal(request) => match request {
                    Request::Write { tuple } => {
                        match self.state_machine.data.write(tuple) {
                            Ok(()) => {},
                            Err(_) => {
                                proof {
                                    assert(false);
                                }
                            },
                        }
                        res.push(Response { value: Some(tuple.clone()) });
                    },
                    Request::Take { query } => {
                        let value = match self.state_machine.data.take(query) {
                            Ok(v) => v,
                            Err(_) => {
                                proof {
                                    assert(false);
                                }
                                None
                            },
                        };
                        res.push(Response { value });
                    },
                },
                EntryPayload::Membership(m) => {
                    self.state_machine.last_membership = StoredMembership {
                        log_id: Some(entry.log_id),
                        membership: m.clone(),
                    };
                    res.push(Response { value: None });
                },
            }
            proof {
                let stepped = spec_apply_one(state_pre, models[i as int]);
                assert(self@.state == stepped.0);
                assert(res.deep_view() =~= res_pre.push(stepped.1));
                assert(forall|rest: Seq<Option<TupleModel>>|
                    res_pre + (seq![stepped.1] + rest) =~= (#[trigger] (res.deep_view() + rest)));
            }
            i += 1;
        }
        proof {
            assert(models.skip(models.len() as int) =~= Seq::<EntryModel>::empty());
            assert(res.deep_view() + Seq::<Option<TupleModel>>::empty() =~= res.deep_view());
        }
        res
    }

    /// Builds a snapshot of the current state: the store serialized in the
    /// codec's format, under the state's log position and membership, and
    /// installs it as the current snapshot.
    pub fn build_snapshot(&mut self) -> (r: StoredSnapshot)
        requires
            old(self)@.snapshot_idx < u64::MAX,
        ensures
            final(self)@.state == old(self)@.state,
            final(self)@.snapshot_idx == old(self)@.snapshot_idx + 1,
            final(self)@.current_snapshot == Some(r@),
            r@.meta.last_log_id == old(self)@.state.last_applied_log,
            r@.meta.last_membership == old(self)@.state.last_membership,
            r@.meta.snapshot_id.log_id == old(self)@.state.last_applied_log,
            r@.meta.snapshot_id.counter == old(self)@.snapshot_idx + 1,
            r@.data == spec_encode_store(old(self)@.state.store),
            store_bounded(old(self)@.state.store),
    {
        let data = encode_store(&self.state_machine.data);
        self.snapshot_idx = self.snapshot_idx + 1;
        let meta = SnapshotMeta {
            last_log_id: self.state_machine.last_applied_log,
            last_membership: self.state_machine.last_membership.clone(),
            snapshot_id: SnapshotId {
                log_id: self.state_machine.last_applied_log,
                counter: self.snapshot_idx,
            },
        };
        let snapshot = StoredSnapshot { meta, data };
        let returned = snapshot.clone();
        self.current_snapshot = Some(snapshot);
        returned
    }

    /// Replaces the whole replicated state with a received snapshot: the
    /// store is decoded from the bytes, the log position and membership come
    /// from the metadata, and the snapshot becomes the current one.  Corrupt
    /// bytes are refused and nothing changes.
    pub fn install_snapshot(&mut self, meta: SnapshotMeta, data: Vec<u8>) -> (r: Result<
        (),
        StorageError,
    >)
        ensures
            match spec_decode_store(data@) {
                Some(store) => {
                    &&& r is Ok
                    &&& final(self)@.state == (StateModel {
                        last_applied_log: meta@.last_log_id,
                        last_membership: meta@.last_membership,
                        store,
                    })
                    &&& final(self)@.current_snapshot == Some(
                        StoredSnapshotModel { meta: meta@, data: data@ },
                    )
                    &&& final(self)@.snapshot_idx == old(self)@.snapshot_idx
                },
                None => {
                    &&& r == Err::<(), StorageError>(StorageError::ReadSnapshot)
                    &&& final(self)@ == old(self)@
                },
            },
    {
        match decode_store(&data) {
            Some(store) => {
                self.state_machine = StateMachineData {
                    last_applied_log: meta.last_log_id,
                    last_membership: meta.last_membership.clone(),
                    data: store,
                };
                self.current_snapshot = Some(StoredSnapshot { meta, data });
                Ok(())
            },
            None => Err(StorageError::ReadSnapshot),
        }
    }

    /// A non-destructive read served locally from the last-applied state:
    /// a copy of the first stored tuple the pattern matches, or nothing
    /// exactly when no stored tuple matches.
    pub fn read(&self, query_tuple: &QueryTuple) -> (r: Option<Tuple>)
        ensures
            r.deep_view() == spec_read(self@.state.store.slots, query_tuple@),
    {
        match self.state_machine.data.read(query_tuple) {
            Ok(value) => value,
            Err(_) => {
                proof {
                    assert(false);
                }
                None
            },
        }
    }

    /// The number of snapshots built so far over this node's lifetime.
    pub fn snapshot_index(&self) -> (r: u64)
        ensures
            r == self@.snapshot_idx,
    {
        self.snapshot_idx
    }

    /// A copy of the most recently built or installed snapshot, if any.
    pub fn get_current_snapshot(&self) -> (r: Option<StoredSnapshot>)
        ensures
            match r {
                Some(snapshot) => self@.current_snapshot == Some(snapshot@),
                None => self@.current_snapshot is None,
            },
    {
        match &self.current_snapshot {
            Some(snapshot) => Some(snapshot.clone()),
            None => None,
        }
    }
}

/// Apply determinism: replaying the same ordered entries against two state
/// machines in the same state yields the same responses, the same last
/// applied log position, and byte-identical store contents.
pub proof fn lemma_apply_deterministic(a: StateModel, b: StateModel, entries: Seq<EntryModel>)
    requires
        a == b,
    ensures
        spec_apply_seq(a, entries).0.store == spec_apply_seq(b, entries).0.store,
        spec_encode_store(spec_apply_seq(a, entries).0.store) == spec_encode_store(
            spec_apply_seq(b, entries).0.store,
        ),
        spec_apply_seq(a, entries).0.last_applied_log == spec_apply_seq(
            b,
            entries,
        ).0.last_applied_log,
        spec_apply_seq(a, entries).1 == spec_apply_seq(b, entries).1,
{
}

/// The ordering of log positions: by term, then by the writing leader's
/// node, then by index — the order in which a consensus log commits them.
pub open spec fn log_id_le(a: LogId, b: LogId) -> bool {
    ||| a.term < b.term
    ||| (a.term == b.term && a.node_id < b.node_id)
    ||| (a.term == b.term && a.node_id == b.node_id && a.index <= b.index)
}

/// The same ordering lifted to a possibly-unset position, with the unset
/// position below every other.
pub open spec fn opt_log_id_le(a: Option<LogId>, b: Option<LogId>) -> bool {
    match a {
        None => true,
        Some(x) => b matches Some(y) && log_id_le(x, y),
    }
}

/// Entries as the consensus module delivers them: in commit order, each at
/// or above the previous one, starting at or above the given position.
pub open spec fn entries_ordered_from(last: Option<LogId>, entries: Seq<EntryModel>) -> bool {
    &&& (entries.len() > 0 ==> opt_log_id_le(last, Some(entries[0].log_id)))
    &&& forall|i: int|
        0 <= i < entries.len() - 1 ==> log_id_le(#[trigger] entries[i].log_id, entries[i + 1].log_id)
}

/// The last applied log position never decreases across an `apply` of
/// entries delivered in commit order — a decrease would be a consistency
/// bug.
pub proof fn lemma_apply_monotonic(s: StateModel, entries: Seq<EntryModel>)
    requires
        entries_ordered_from(s.last_applied_log, entries),
    ensures
        opt_log_id_le(s.last_applied_log, spec_apply_seq(s, entries).0.last_applied_log),
    decreases entries.len(),
{
    if entries.len() > 0 {
        let (s1, _) = spec_apply_one(s, entries[0]);
        let rest = entries.drop_first();
        assert(forall|i: int| 0 <= i < rest.len() ==> #[trigger] rest[i] == entries[i + 1]);
        lemma_apply_monotonic(s1, rest);
    }
}

/// After a non-empty batch, the last applied log position is the last
/// entry's position — a crash mid-batch leaves a well-defined resume point.
pub proof fn lemma_apply_seq_last_applied(s: StateModel, entries: Seq<EntryModel>)
    requires
        entries.len() > 0,
    ensures
        spec_apply_seq(s, entries).0.last_applied_log == Some(entries.last().log_id),
    decreases entries.len(),
{
    let (s1, _) = spec_apply_one(s, entries[0]);
    if entries.len() > 1 {
        lemma_apply_seq_last_applied(s1, entries.drop_first());
        assert(entries.drop_first().last() == entries.last());
    } else {
        assert(entries.drop_first().len() == 0);
        assert(spec_apply_seq(s1, entries.drop_first()).0 == s1);
    }
}

/// Snapshot round trip: installing a snapshot just built from a state
/// reproduces that state's store exactly, so the log position, the
/// membership, and the answer to every read and take are identical.
pub proof fn lemma_snapshot_round_trip(s: StateModel, q: Seq<QueryModel>)
    requires
        store_bounded(s.store),
    ensures
        spec_decode_store(spec_encode_store(s.store)) == Some(s.store),
        ({
            let restored = spec_decode_store(spec_encode_store(s.store))->Some_0;
            &&& spec_read(restored.slots, q) == spec_read(s.store.slots, q)
            &&& spec_take(restored, q) == spec_take(s.store, q)
        }),
{
    crate::codec::lemma_store_codec_round_trip(s.store);
}

} // verus!
