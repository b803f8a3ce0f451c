use transit_model::Error;
use transit_model::collection::CollectionWithId;
use transit_model::model::TransitObject;
use transit_model::read_utils::FileHandler;
use transit_model::read_utils::ZipHandler;
use transit_model::read_utils::collection_from_probed;
use transit_model::read_utils::read_collection;
use transit_model::read_utils::read_objects;
use transit_model::read_utils::read_objects_loose;
use transit_model::read_utils::read_opt_collection;
use transit_model::read_utils::records_from_bytes;
use transit_model::read_utils::records_from_bytes_loose;

fn zip_bytes(entries: &[(&str, &[u8])]) -> Vec<u8> {
    let mut cursor = std::io::Cursor::new(Vec::new());
    {
        let mut writer = zip::ZipWriter::new(&mut cursor);
        let options = zip::write::FileOptions::default();
        for (name, data) in entries {
            writer.start_file(*name, options).unwrap();
            std::io::Write::write_all(&mut writer, data).unwrap();
        }
        writer.finish().unwrap();
    }
    cursor.into_inner()
}

#[test]
fn zip_file_access() {
    let bytes = zip_bytes(&[("hello.txt", b"hello\n"), ("folder/world.txt", b"world\n")]);
    let mut handler = ZipHandler::new(bytes, String::from("file-handler.zip")).unwrap();
    assert_eq!(handler.source_name(), "file-handler.zip");

    let (hello, _) = handler.get_file("hello.txt").unwrap();
    assert_eq!(hello, b"hello\n".to_vec());

    let (world, _) = handler.get_file("world.txt").unwrap();
    assert_eq!(world, b"world\n".to_vec());

    let (missing, path) = handler.get_file_if_exists("missing.txt").unwrap();
    assert!(missing.is_none());
    assert_eq!(path, "file-handler.zip/missing.txt");

    let missing_err = handler.get_file("missing.txt");
    assert!(matches!(missing_err, Err(Error::MissingFile(_))));
}

#[test]
fn later_entry_wins_on_base_name_collision() {
    let bytes = zip_bytes(&[("a/x.txt", b"first\n"), ("b/x.txt", b"second\n")]);
    let mut handler = ZipHandler::new(bytes, String::from("data.zip")).unwrap();
    let (x, _) = handler.get_file("x.txt").unwrap();
    assert_eq!(x, b"second\n".to_vec());
}

#[test]
fn optional_and_required_files() {
    let bytes = zip_bytes(&[("stops.txt", b"id\nstop_1\n")]);
    let mut handler = ZipHandler::new(bytes, String::from("data.zip")).unwrap();

    let absent_optional: Vec<TransitObject> =
        read_objects(&mut handler, "absent.txt", false).unwrap();
    assert!(absent_optional.is_empty());

    let absent_required: Result<Vec<TransitObject>, Error> =
        read_objects(&mut handler, "absent.txt", true);
    match absent_required {
        Err(Error::MissingFile(path)) => assert_eq!(path, "data.zip/absent.txt"),
        other => panic!("expected a missing-file error, got {:?}", other.map(|v| v.len())),
    }

    let present: Vec<TransitObject> = read_objects(&mut handler, "stops.txt", true).unwrap();
    assert_eq!(present.len(), 1);
    assert_eq!(present[0].id, "stop_1");
}

#[test]
fn strict_and_lossy_rows() {
    let content: &[u8] = b"name,id\nalpha,a1\nbad\nbeta,b2\n";
    let bytes = zip_bytes(&[("objects.txt", content)]);
    let mut handler = ZipHandler::new(bytes, String::from("data.zip")).unwrap();

    let lossy: Vec<TransitObject> =
        read_objects_loose(&mut handler, "objects.txt", true).unwrap();
    assert_eq!(lossy.len(), 2);
    assert_eq!(lossy[0].id, "a1");
    assert_eq!(lossy[1].id, "b2");

    let strict: Result<Vec<TransitObject>, Error> = read_objects(&mut handler, "objects.txt", true);
    assert!(matches!(strict, Err(Error::MalformedRow { .. })));
}

#[test]
fn fields_are_trimmed() {
    let rows: Vec<TransitObject> =
        records_from_bytes(&b"id , name\n  a1  , alpha \n".to_vec(), String::from("objects.txt"))
            .unwrap();
    assert_eq!(rows.len(), 1);
    assert_eq!(rows[0].id, "a1");
}

#[test]
fn lossy_bytes_keep_only_valid_rows() {
    let rows: Vec<TransitObject> =
        records_from_bytes_loose(&b"name,id\nalpha,a1\nbad\nbad2\nbeta,b2\n".to_vec());
    assert_eq!(rows.len(), 2);
    assert_eq!(rows[0].id, "a1");
    assert_eq!(rows[1].id, "b2");
}

#[test]
fn duplicate_identifier_rejection() {
    let duplicate_late = vec![
        TransitObject { id: String::from("x") },
        TransitObject { id: String::from("y") },
        TransitObject { id: String::from("x") },
    ];
    match CollectionWithId::new(duplicate_late) {
        Err(Error::DuplicateId(id)) => assert_eq!(id, "x"),
        _ => panic!("expected a duplicate-identifier error"),
    }

    let duplicate_early = vec![
        TransitObject { id: String::from("x") },
        TransitObject { id: String::from("x") },
        TransitObject { id: String::from("y") },
    ];
    assert!(matches!(CollectionWithId::new(duplicate_early), Err(Error::DuplicateId(_))));

    let distinct = vec![
        TransitObject { id: String::from("x") },
        TransitObject { id: String::from("y") },
    ];
    assert!(CollectionWithId::new(distinct).is_ok());
}

#[test]
fn collection_from_probed_bytes() {
    let present: Result<CollectionWithId<TransitObject>, Error> = collection_from_probed(
        Some(b"id\na\nb\n".to_vec()),
        String::from("objects.txt"),
        true,
    );
    let collection = present.unwrap();
    assert_eq!(collection.len(), 2);
    assert!(collection.get("a").is_some());

    let dupes: Result<CollectionWithId<TransitObject>, Error> = collection_from_probed(
        Some(b"id\nx\nx\n".to_vec()),
        String::from("objects.txt"),
        true,
    );
    match dupes {
        Err(Error::DuplicateId(id)) => assert_eq!(id, "x"),
        _ => panic!("expected a duplicate-identifier error"),
    }

    let absent_optional: Result<CollectionWithId<TransitObject>, Error> =
        collection_from_probed(None, String::from("absent.txt"), false);
    assert_eq!(absent_optional.unwrap().len(), 0);

    let absent_required: Result<CollectionWithId<TransitObject>, Error> =
        collection_from_probed(None, String::from("absent.txt"), true);
    match absent_required {
        Err(Error::MissingFile(path)) => assert_eq!(path, "absent.txt"),
        _ => panic!("expected a missing-file error"),
    }
}

#[test]
fn read_collection_from_archive() {
    let bytes = zip_bytes(&[
        ("objects.txt", b"name,id\nalpha,a1\nbeta,b2\n".as_slice()),
        ("dupes.txt", b"id\nx\nx\n".as_slice()),
    ]);
    let mut handler = ZipHandler::new(bytes, String::from("data.zip")).unwrap();

    let collection: CollectionWithId<TransitObject> =
        read_collection(&mut handler, "objects.txt").unwrap();
    assert_eq!(collection.len(), 2);
    assert!(collection.get("a1").is_some());
    assert!(collection.get("b2").is_some());
    assert!(collection.get("zz").is_none());

    let dupes: Result<CollectionWithId<TransitObject>, Error> =
        read_collection(&mut handler, "dupes.txt");
    assert!(matches!(dupes, Err(Error::DuplicateId(_))));

    let absent: CollectionWithId<TransitObject> =
        read_opt_collection(&mut handler, "absent.txt").unwrap();
    assert_eq!(absent.len(), 0);

    let absent_required: Result<CollectionWithId<TransitObject>, Error> =
        read_collection(&mut handler, "absent.txt");
    assert!(matches!(absent_required, Err(Error::MissingFile(_))));
}
