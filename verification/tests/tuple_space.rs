use ratus::path::Path;
use ratus::query_tuple::QueryTuple;
use ratus::store::Store;
use ratus::tuple::Tuple;
use ratus::types::{QueryTypes, Types};
use ratus::vec_store::VecStore;

#[test]
fn test_builder() {
    let tuple = Tuple::builder().integer(5).build();

    assert_eq!(1, tuple.len());

    let tuple = Tuple::builder()
        .integer(1)
        .float(2.0f64.to_bits())
        .boolean(true)
        .string("String")
        .build();
    assert_eq!(4, tuple.len());

    let query_tuple = Tuple::query()
        .integer(1)
        .float(2.0f64.to_bits())
        .boolean(true)
        .string("String")
        .build();
    assert!(query_tuple.matches(&tuple));

    let query_tuple = Tuple::query()
        .any_integer()
        .any_float()
        .any_boolean()
        .any_string()
        .build();
    assert!(query_tuple.matches(&tuple))
}

#[test]
fn test_compare() {
    let b1 = Types::Boolean(true);
    let b1_copy = Types::Boolean(true);
    let b2 = Types::Boolean(false);

    assert_eq!(b1, b1_copy);
    assert_ne!(b1, b2);

    let i1 = Types::Integer(1);
    let i1_copy = Types::Integer(1);
    let i2 = Types::Integer(2);

    assert_eq!(i1, i1_copy);
    assert_ne!(i1, i2);

    let f1 = Types::Float(1.0f64.to_bits());
    let f1_copy = Types::Float(1.0f64.to_bits());
    let f2 = Types::Float(2.0f64.to_bits());

    assert_eq!(f1, f1_copy);
    assert_ne!(f1, f2);
    assert_ne!(f1, i1);

    let s1 = Types::String(String::from("S1"));
    let s1_copy = Types::String(String::from("S1"));
    let s2 = Types::String(String::from("S2"));

    assert_eq!(s1, s1_copy);
    assert_ne!(s1, s2);
    assert_ne!(s1, f1);
}

#[test]
fn test_query_compare() {
    let boolean = Types::Boolean(true);
    let integer = Types::Integer(1);
    let float = Types::Float(1.0f64.to_bits());
    let string = Types::String(String::from("S1"));

    assert!(QueryTypes::Any.satisfies(&boolean));
    assert!(QueryTypes::Any.satisfies(&integer));
    assert!(QueryTypes::Any.satisfies(&float));
    assert!(QueryTypes::Any.satisfies(&string));
    assert!(QueryTypes::AnyBoolean.satisfies(&boolean));
    assert!(QueryTypes::AnyInteger.satisfies(&integer));
    assert!(QueryTypes::AnyFloat.satisfies(&float));
    assert!(QueryTypes::AnyString.satisfies(&string));

    assert!(QueryTypes::ExactString(String::from("S1")).satisfies(&string));
    assert!(QueryTypes::ExactInteger(1).satisfies(&integer));
    assert!(QueryTypes::ExactFloat(1.0f64.to_bits()).satisfies(&float));
    assert!(QueryTypes::ExactBoolean(true).satisfies(&boolean));
}

#[test]
fn test_vec_store() {
    let mut tuple_store = VecStore::builder().compact_margin(85).build();

    tuple_store.write(&Tuple::builder().integer(5).build()).unwrap();
    tuple_store.write(&Tuple::builder().integer(2).build()).unwrap();

    assert_eq!(2, tuple_store.size().unwrap());
    assert_eq!(2, tuple_store.tuple_count());

    match tuple_store.read(&QueryTuple::builder().integer(2).build()).unwrap() {
        Some(_tuple) => (),
        None => panic!("No tuple found"),
    }

    assert_eq!(2, tuple_store.size().unwrap());
    assert_eq!(2, tuple_store.tuple_count());

    match tuple_store.take(&QueryTuple::builder().integer(5).build()).unwrap() {
        Some(_tuple) => (),
        None => panic!("No tuple found"),
    }

    assert_eq!(1, tuple_store.size().unwrap());
    assert_eq!(1, tuple_store.tuple_count());

    match tuple_store.take(&QueryTuple::builder().any_integer().build()).unwrap() {
        Some(_tuple) => (),
        None => panic!("No tuple found"),
    }

    assert_eq!(0, tuple_store.size().unwrap());
    assert_eq!(0, tuple_store.tuple_count());

    match tuple_store.take(&QueryTuple::builder().any_integer().build()).unwrap() {
        Some(_tuple) => panic!("Tuple found"),
        None => (),
    }
    assert_eq!(0, tuple_store.size().unwrap());
    assert_eq!(0, tuple_store.tuple_count());
}

#[test]
fn test_joins() {
    let root: Vec<String> = vec![String::from("home"), String::from("tuple-space")];
    let path = Path::new(root.clone());
    let joined_path = path.join_root(vec!["assets"]);

    assert_eq!(joined_path, Path::join(&root, "assets".to_string()));
}

#[test]
fn path_folders_hang_off_the_root() {
    let path = Path::new(vec![String::from("srv"), String::from("node")]);

    assert_eq!(
        path.get_assets(),
        vec![String::from("srv"), String::from("node"), String::from("assets")]
    );
    assert_eq!(
        path.get_models(),
        vec![
            String::from("srv"),
            String::from("node"),
            String::from("assets"),
            String::from("models")
        ]
    );
    assert_eq!(
        path.get_model("model.bin"),
        vec![
            String::from("srv"),
            String::from("node"),
            String::from("assets"),
            String::from("models"),
            String::from("model.bin")
        ]
    );
    assert_eq!(
        path.get_data("data.csv"),
        vec![
            String::from("srv"),
            String::from("node"),
            String::from("assets"),
            String::from("data"),
            String::from("data.csv")
        ]
    );
    assert_eq!(
        path.join_root(vec!["logs", "today"]),
        vec![
            String::from("srv"),
            String::from("node"),
            String::from("logs"),
            String::from("today")
        ]
    );
}

#[test]
fn match_requires_equal_length() {
    let tuple = Tuple::builder().integer(1).integer(2).build();

    let shorter = Tuple::query().any_integer().build();
    let longer = Tuple::query().any_integer().any_integer().any_integer().build();
    let exact = Tuple::query().any_integer().any_integer().build();

    assert!(!shorter.matches(&tuple));
    assert!(!longer.matches(&tuple));
    assert!(exact.matches(&tuple));

    let empty_tuple = Tuple::builder().build();
    let empty_query = Tuple::query().build();
    assert!(empty_query.matches(&empty_tuple));
    assert!(!empty_query.matches(&tuple));
    assert!(empty_tuple.is_empty());
    assert!(!tuple.is_empty());
}

#[test]
fn match_is_positional() {
    let tuple = Tuple::builder().string("Number").integer(5).build();

    let right_order = Tuple::query().string("Number").integer(5).build();
    let wrong_order = Tuple::query().integer(5).string("Number").build();
    let wrong_payload = Tuple::query().string("Number").integer(6).build();
    let wrong_tag = Tuple::query().string("Number").any_boolean().build();

    assert!(right_order.matches(&tuple));
    assert!(!wrong_order.matches(&tuple));
    assert!(!wrong_payload.matches(&tuple));
    assert!(!wrong_tag.matches(&tuple));
}

#[test]
fn write_then_read_returns_the_tuple() {
    let mut store = VecStore::default();
    let tuple = Tuple::builder().string("Number").integer(5).build();
    let query = Tuple::query().string("Number").any_integer().build();

    assert_eq!(0, store.size().unwrap());
    store.write(&tuple).unwrap();
    assert_eq!(1, store.size().unwrap());

    let read_back = store.read(&query).unwrap().expect("No tuple found");
    assert_eq!(read_back, tuple);
    assert_eq!(1, store.size().unwrap());
}

#[test]
fn take_is_destructive_and_single_consumer() {
    let mut store = VecStore::default();
    let tuple = Tuple::builder().string("Number").integer(5).build();
    let query = Tuple::query().string("Number").any_integer().build();

    store.write(&tuple).unwrap();
    assert_eq!(1, store.size().unwrap());

    let taken = store.take(&query).unwrap().expect("No tuple found");
    assert_eq!(taken, tuple);
    assert_eq!(0, store.size().unwrap());

    assert!(store.take(&query).unwrap().is_none());
    assert!(store.read(&query).unwrap().is_none());
}

#[test]
fn concrete_number_scenario() {
    let mut store = VecStore::default();
    store.write(&Tuple::builder().string("Number").integer(5).build()).unwrap();

    let query = Tuple::query().string("Number").any_integer().build();

    let read_back = store.read(&query).unwrap();
    assert_eq!(read_back, Some(Tuple::builder().string("Number").integer(5).build()));
    assert_eq!(1, store.size().unwrap());

    let taken = store.take(&query).unwrap();
    assert_eq!(taken, Some(Tuple::builder().string("Number").integer(5).build()));
    assert_eq!(0, store.size().unwrap());

    assert_eq!(None, store.take(&query).unwrap());
}

#[test]
fn compaction_keeps_live_data_and_order() {
    let mut store = VecStore::builder().compact_margin(90).build();

    store.write(&Tuple::builder().string("record").integer(1).build()).unwrap();
    store.write(&Tuple::builder().string("record").integer(2).build()).unwrap();
    store.write(&Tuple::builder().string("record").integer(3).build()).unwrap();

    let middle = Tuple::query().string("record").integer(2).build();
    assert!(store.take(&middle).unwrap().is_some());

    // The live/total ratio is now 2/3 < 0.90, so this write compacts first.
    store.write(&Tuple::builder().string("record").integer(4).build()).unwrap();
    assert_eq!(3, store.tuple_count());

    // Every live tuple is still retrievable by its own pattern.
    for expected in [1i64, 3, 4] {
        let q = Tuple::query().string("record").integer(expected).build();
        assert!(store.read(&q).unwrap().is_some());
    }

    // On an ambiguous match, the earliest-inserted tuple still wins.
    let any = Tuple::query().string("record").any_integer().build();
    assert_eq!(
        store.take(&any).unwrap(),
        Some(Tuple::builder().string("record").integer(1).build())
    );
    assert_eq!(
        store.take(&any).unwrap(),
        Some(Tuple::builder().string("record").integer(3).build())
    );
    assert_eq!(
        store.take(&any).unwrap(),
        Some(Tuple::builder().string("record").integer(4).build())
    );
    assert!(store.take(&any).unwrap().is_none());
}

#[test]
fn query_tuple_reports_its_shape() {
    let query = QueryTuple::builder().any().boolean(false).float(0.5f64.to_bits()).build();
    assert_eq!(3, query.len());
    assert!(!query.is_empty());
    assert!(QueryTuple::builder().build().is_empty());

    let matching = Tuple::builder()
        .string("anything")
        .boolean(false)
        .float(0.5f64.to_bits())
        .build();
    assert!(query.matches(&matching));
}
