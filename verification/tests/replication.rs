use ratus::codec::{decode_store, encode_store};
use ratus::mutex_store::MutexStore;
use ratus::state_machine::{
    Entry, EntryPayload, LogId, MemberNode, Membership, Request, Response, StateMachine,
    StorageError,
};
use ratus::store::Store;
use ratus::tuple::Tuple;
use ratus::vec_store::VecStore;

fn log_id(term: u64, index: u64) -> LogId {
    LogId { term, node_id: 1, index }
}

fn sample_entries() -> Vec<Entry> {
    vec![
        Entry { log_id: log_id(1, 1), payload: EntryPayload::Blank },
        Entry {
            log_id: log_id(1, 2),
            payload: EntryPayload::Normal(Request::Write {
                tuple: Tuple::builder().string("Number").integer(5).build(),
            }),
        },
        Entry {
            log_id: log_id(1, 3),
            payload: EntryPayload::Normal(Request::Write {
                tuple: Tuple::builder().string("Number").integer(7).build(),
            }),
        },
        Entry {
            log_id: log_id(1, 4),
            payload: EntryPayload::Normal(Request::Take {
                query: Tuple::query().string("Number").integer(5).build(),
            }),
        },
        Entry {
            log_id: log_id(2, 5),
            payload: EntryPayload::Membership(Membership {
                configs: vec![vec![1, 2, 3]],
                nodes: vec![
                    MemberNode { id: 1, addr: String::from("127.0.0.1:21001") },
                    MemberNode { id: 2, addr: String::from("127.0.0.1:21002") },
                    MemberNode { id: 3, addr: String::from("127.0.0.1:21003") },
                ],
            }),
        },
    ]
}

fn query_battery() -> Vec<Entry> {
    vec![
        Entry {
            log_id: log_id(3, 6),
            payload: EntryPayload::Normal(Request::Take {
                query: Tuple::query().string("Number").any_integer().build(),
            }),
        },
        Entry {
            log_id: log_id(3, 7),
            payload: EntryPayload::Normal(Request::Take {
                query: Tuple::query().string("Number").any_integer().build(),
            }),
        },
    ]
}

#[test]
fn apply_responds_to_each_entry_in_order() {
    let mut machine = StateMachine::default();
    let responses = machine.apply(sample_entries());

    assert_eq!(5, responses.len());
    assert_eq!(responses[0], Response { value: None });
    assert_eq!(
        responses[1],
        Response { value: Some(Tuple::builder().string("Number").integer(5).build()) }
    );
    assert_eq!(
        responses[2],
        Response { value: Some(Tuple::builder().string("Number").integer(7).build()) }
    );
    assert_eq!(
        responses[3],
        Response { value: Some(Tuple::builder().string("Number").integer(5).build()) }
    );
    assert_eq!(responses[4], Response { value: None });

    let (last_applied, membership) = machine.applied_state();
    assert_eq!(last_applied, Some(log_id(2, 5)));
    assert_eq!(membership.log_id, Some(log_id(2, 5)));
    assert_eq!(membership.membership.configs, vec![vec![1, 2, 3]]);
    assert_eq!(3, membership.membership.nodes.len());
}

#[test]
fn apply_take_misses_are_normal_outcomes() {
    let mut machine = StateMachine::default();
    let responses = machine.apply(vec![Entry {
        log_id: log_id(1, 1),
        payload: EntryPayload::Normal(Request::Take {
            query: Tuple::query().any_string().build(),
        }),
    }]);

    assert_eq!(responses, vec![Response { value: None }]);
    assert_eq!(machine.applied_state().0, Some(log_id(1, 1)));
}

#[test]
fn apply_determinism_across_replicas() {
    let mut first = StateMachine::default();
    let mut second = StateMachine::default();

    let first_responses = first.apply(sample_entries());
    let second_responses = second.apply(sample_entries());
    assert_eq!(first_responses, second_responses);
    assert_eq!(first.applied_state().0, second.applied_state().0);
    assert_eq!(first.applied_state().1, second.applied_state().1);

    // Byte-identical store contents: both replicas serialize identically.
    let first_snapshot = first.build_snapshot();
    let second_snapshot = second.build_snapshot();
    assert_eq!(first_snapshot.data, second_snapshot.data);
}

#[test]
fn snapshot_round_trip_reproduces_the_state() {
    let mut source = StateMachine::default();
    source.apply(sample_entries());
    let snapshot = source.build_snapshot();

    assert_eq!(snapshot.meta.last_log_id, Some(log_id(2, 5)));
    assert_eq!(snapshot.meta.snapshot_id.log_id, Some(log_id(2, 5)));
    assert_eq!(snapshot.meta.snapshot_id.counter, 1);

    let mut fresh = StateMachine::default();
    fresh.install_snapshot(snapshot.meta, snapshot.data).unwrap();

    assert_eq!(source.applied_state().0, fresh.applied_state().0);
    assert_eq!(source.applied_state().1, fresh.applied_state().1);

    // The same battery of queries gets identical answers from both.
    let source_answers = source.apply(query_battery());
    let fresh_answers = fresh.apply(query_battery());
    assert_eq!(source_answers, fresh_answers);
    assert_eq!(
        fresh_answers[0],
        Response { value: Some(Tuple::builder().string("Number").integer(7).build()) }
    );
    assert_eq!(fresh_answers[1], Response { value: None });
}

#[test]
fn snapshot_becomes_the_current_snapshot() {
    let mut machine = StateMachine::default();
    assert!(machine.get_current_snapshot().is_none());

    machine.apply(sample_entries());
    let built = machine.build_snapshot();
    let current = machine.get_current_snapshot().expect("no current snapshot");
    assert_eq!(current, built);

    // A newly built snapshot replaces the previous one.
    let rebuilt = machine.build_snapshot();
    assert_eq!(rebuilt.meta.snapshot_id.counter, 2);
    let current = machine.get_current_snapshot().expect("no current snapshot");
    assert_eq!(current, rebuilt);
}

#[test]
fn corrupt_snapshot_bytes_are_refused() {
    let mut machine = StateMachine::default();
    machine.apply(sample_entries());
    let before = machine.applied_state();

    let snapshot = machine.build_snapshot();
    let mut corrupt = snapshot.data.clone();
    corrupt.pop();

    let result = machine.install_snapshot(snapshot.meta, corrupt);
    assert_eq!(result, Err(StorageError::ReadSnapshot));
    assert_eq!(machine.applied_state(), before);
}

#[test]
fn store_codec_round_trip() {
    let mut store = VecStore::builder().compact_margin(75).build();
    store.write(&Tuple::builder().boolean(true).build()).unwrap();
    store
        .write(
            &Tuple::builder()
                .integer(-42)
                .float(3.25f64.to_bits())
                .string("héllo → 🦀")
                .build(),
        )
        .unwrap();
    store.write(&Tuple::builder().build()).unwrap();
    store.take(&Tuple::query().any_boolean().build()).unwrap().unwrap();

    let bytes = encode_store(&store);
    let mut decoded = decode_store(&bytes).expect("decoding its own encoding failed");

    assert_eq!(store.tuple_count(), decoded.tuple_count());
    assert_eq!(store.compact_margin(), decoded.compact_margin());

    let q = Tuple::query().any_integer().any_float().any_string().build();
    assert_eq!(
        decoded.read(&q).unwrap(),
        Some(
            Tuple::builder()
                .integer(-42)
                .float(3.25f64.to_bits())
                .string("héllo → 🦀")
                .build()
        )
    );
    assert_eq!(
        decoded.take(&Tuple::query().build()).unwrap(),
        Some(Tuple::builder().build())
    );
    assert_eq!(1, decoded.tuple_count());
}

#[test]
fn garbage_bytes_do_not_decode() {
    assert!(decode_store(&vec![]).is_none());
    assert!(decode_store(&vec![0xFF; 3]).is_none());
    assert!(decode_store(&vec![0u8; 64]).is_none());
}

#[test]
fn take_single_winner_across_handles() {
    let mut first_handle = MutexStore::default();
    let mut second_handle = first_handle.clone();

    first_handle
        .write(&Tuple::builder().string("Number").integer(5).build())
        .unwrap();
    assert_eq!(1, second_handle.size().unwrap());

    let query = Tuple::query().string("Number").any_integer().build();
    let first_take = first_handle.take(&query).unwrap();
    let second_take = second_handle.take(&query).unwrap();

    // Exactly one winner: the takes are serialized on the shared store.
    assert_eq!(
        first_take,
        Some(Tuple::builder().string("Number").integer(5).build())
    );
    assert_eq!(second_take, None);
    assert_eq!(0, first_handle.size().unwrap());
}

#[test]
fn handles_share_one_store() {
    let mut writer = MutexStore::default();
    let reader = writer.clone();

    writer.write(&Tuple::builder().integer(1).build()).unwrap();
    writer.write(&Tuple::builder().integer(2).build()).unwrap();

    assert_eq!(2, reader.size().unwrap());
    let seen = reader
        .read(&Tuple::query().any_integer().build())
        .unwrap()
        .expect("No tuple found");
    assert_eq!(seen, Tuple::builder().integer(1).build());
    assert_eq!(2, reader.size().unwrap());
}

#[test]
fn empty_store_encodes_to_header_only() {
    let bytes = encode_store(&VecStore::default());
    // Slot count 0 as eight little-endian bytes, then the default margin
    // (90 hundredths) as four.
    assert_eq!(bytes, vec![0, 0, 0, 0, 0, 0, 0, 0, 90, 0, 0, 0]);
}

#[test]
fn trailing_bytes_are_refused() {
    let mut store = VecStore::default();
    store.write(&Tuple::builder().integer(1).build()).unwrap();
    let mut bytes = encode_store(&store);
    assert!(decode_store(&bytes).is_some());
    bytes.push(0);
    assert!(decode_store(&bytes).is_none());
}
