use polodb_daemon::protocol::Reply;
use polodb_daemon::registry::PoloDatabase;
use polodb_daemon::registry::PoloDaemon;
use polodb_daemon::registry::SerializedDatabase;
use polodb_daemon::Error;

fn unique_path(tag: &str) -> String {
    format!("/tmp/polodb_daemon_{}_{}.db", tag, uuid::Uuid::new_v4())
}

#[test]
fn registry_open_rejects_duplicate_without_touching_state() {
    let mut d = PoloDaemon::new();
    let key = String::from("a");
    let p1 = unique_path("reg_dup1");
    let p2 = unique_path("reg_dup2");
    assert!(d.open(&key, &p1).is_ok());
    match d.open(&key, &p2) {
        Err(Error::ExistingDatabase(k)) => assert_eq!(k, "a"),
        _ => panic!("expected ExistingDatabase"),
    }
    assert_eq!(d.list(), vec![String::from("a")]);
    // The registered entry still carries the first path.
    let handle = d.get(&key).unwrap();
    assert_eq!(handle.file, p1);
}

#[test]
fn registry_close_missing_reports_the_key() {
    let mut d = PoloDaemon::new();
    match d.close(&String::from("missing")) {
        Err(Error::UnknownDatabase(k)) => assert_eq!(k, "missing"),
        _ => panic!("expected UnknownDatabase"),
    }
}

#[test]
fn registry_get_on_missing_key_reports_the_key() {
    let d = PoloDaemon::new();
    match d.get(&String::from("nope")) {
        Err(Error::UnknownDatabase(k)) => assert_eq!(k, "nope"),
        _ => panic!("expected UnknownDatabase"),
    }
}

#[test]
fn registry_list_reflects_opens_and_closes_in_order() {
    let mut d = PoloDaemon::new();
    let pa = unique_path("reg_list_a");
    let pb = unique_path("reg_list_b");
    let pc = unique_path("reg_list_c");
    assert!(d.open(&String::from("a"), &pa).is_ok());
    assert!(d.open(&String::from("b"), &pb).is_ok());
    assert!(d.open(&String::from("c"), &pc).is_ok());
    assert_eq!(d.list(), vec![String::from("a"), String::from("b"), String::from("c")]);
    assert!(d.close(&String::from("b")).is_ok());
    assert_eq!(d.list(), vec![String::from("a"), String::from("c")]);
}

#[test]
fn registry_open_with_unusable_path_fails_with_io() {
    let mut d = PoloDaemon::new();
    let bad = String::from("/dev/null/not_a_directory/x.db");
    match d.open(&String::from("a"), &bad) {
        Err(Error::Io(msg)) => assert!(msg.starts_with("Failed to open ")),
        _ => panic!("expected Io"),
    }
    assert_eq!(d.list(), Vec::<String>::new());
}

#[test]
fn registry_get_collection_on_missing_key_fails() {
    let d = PoloDaemon::new();
    match d.get_collection(&String::from("nope"), &String::from("c")) {
        Err(Error::UnknownDatabase(m)) => assert_eq!(m, "Invalid DB key"),
        _ => panic!("expected UnknownDatabase"),
    }
}

#[test]
fn handle_serialize_round_trip_keeps_key_and_file() {
    let path = unique_path("serde");
    let opened = PoloDatabase::deserialize(SerializedDatabase {
        key: String::from("k"),
        file: path.clone(),
    })
    .unwrap();
    assert_eq!(opened.key, "k");
    assert_eq!(opened.file, path);
    let described = opened.serialize();
    assert_eq!(described.key, "k");
    assert_eq!(described.file, path);
}

#[test]
fn handle_deserialize_with_unusable_path_fails_with_io() {
    let r = PoloDatabase::deserialize(SerializedDatabase {
        key: String::from("k"),
        file: String::from("/dev/null/not_a_directory/x.db"),
    });
    match r {
        Err(Error::Io(_)) => {},
        _ => panic!("expected Io"),
    }
}

#[test]
fn handle_collections_lists_created_collections() {
    let path = unique_path("colls");
    let mut d = PoloDaemon::new();
    assert!(d.open(&String::from("db"), &path).is_ok());
    {
        let handle = d.get(&String::from("db")).unwrap();
        let c = handle.collection(&String::from("c1"));
        c.insert_one(polodb_core::bson::Document::new()).unwrap();
        let c2 = handle.collection(&String::from("c2"));
        c2.insert_one(polodb_core::bson::Document::new()).unwrap();
        let mut names = handle.collections().unwrap();
        names.sort();
        assert_eq!(names, vec![String::from("c1"), String::from("c2")]);
    }
}

#[test]
fn reply_extractors_accept_their_own_shape() {
    assert_eq!(Reply::Message(String::from("ok")).into_message().unwrap(), "ok");
    assert_eq!(
        Reply::Keys(vec![String::from("a")]).into_keys().unwrap(),
        vec![String::from("a")]
    );
    assert_eq!(Reply::InsertedIds(vec![0, 1]).into_inserted_ids().unwrap(), vec![0, 1]);
    assert_eq!(Reply::Documents(Vec::new()).into_documents().unwrap().len(), 0);
    assert_eq!(Reply::Count(5).into_count().unwrap(), 5);
}

#[test]
fn reply_extractors_reject_a_mismatched_shape() {
    assert!(matches!(
        Reply::Count(1).into_message(),
        Err(Error::SerializationError(_))
    ));
    assert!(matches!(
        Reply::Message(String::from("x")).into_keys(),
        Err(Error::SerializationError(_))
    ));
    assert!(matches!(
        Reply::Count(1).into_inserted_ids(),
        Err(Error::SerializationError(_))
    ));
    assert!(matches!(
        Reply::Count(1).into_documents(),
        Err(Error::SerializationError(_))
    ));
    assert!(matches!(
        Reply::Message(String::from("x")).into_count(),
        Err(Error::SerializationError(_))
    ));
}
