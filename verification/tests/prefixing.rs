use transit_model::add_prefix::AddPrefix;
use transit_model::add_prefix::add_prefix_on_vehicle_journey_ids;
use transit_model::add_prefix::add_prefix_on_vehicle_journey_ids_and_values;
use transit_model::collection::Collection;
use transit_model::collection::CollectionWithId;
use transit_model::model::Collections;
use transit_model::model::TransitObject;

#[test]
fn collection() {
    let obj1 = TransitObject { id: String::from("some_id") };
    let obj2 = TransitObject { id: String::from("other_id") };
    let mut collection = Collection::new(vec![obj1, obj2]);
    collection.add_prefix_with_sep("pre", ":");
    let values = collection.values();
    assert_eq!(String::from("pre:some_id"), values[0].id);
    assert_eq!(String::from("pre:other_id"), values[1].id);
}

#[test]
fn collection_with_id() {
    let obj1 = TransitObject { id: String::from("some_id") };
    let obj2 = TransitObject { id: String::from("other_id") };
    let mut collection = CollectionWithId::new(vec![obj1, obj2]).unwrap();
    collection.add_prefix_with_sep("pre", ":");
    let values = collection.values();
    assert_eq!(String::from("pre:some_id"), values[0].id);
    assert_eq!(String::from("pre:other_id"), values[1].id);
}

#[test]
fn vehicle_journey_key_prefixing() {
    let map = vec![
        ((String::from("trip_1"), 0u32), String::from("headsign")),
        ((String::from("trip_2"), 7u32), String::from("label")),
    ];
    let prefixed = add_prefix_on_vehicle_journey_ids(&map, "pre:");
    assert_eq!(prefixed.len(), 2);
    assert_eq!(prefixed[0].0.0, "pre:trip_1");
    assert_eq!(prefixed[0].0.1, 0u32);
    assert_eq!(prefixed[0].1, "headsign");
    assert_eq!(prefixed[1].0.0, "pre:trip_2");
    assert_eq!(prefixed[1].0.1, 7u32);
    assert_eq!(prefixed[1].1, "label");
}

#[test]
fn vehicle_journey_key_and_value_prefixing() {
    let map = vec![((String::from("trip_1"), 3u32), String::from("comment_1"))];
    let prefixed = add_prefix_on_vehicle_journey_ids_and_values(&map, "pre:");
    assert_eq!(prefixed.len(), 1);
    assert_eq!(prefixed[0].0.0, "pre:trip_1");
    assert_eq!(prefixed[0].0.1, 3u32);
    assert_eq!(prefixed[0].1, "pre:comment_1");
}

#[test]
fn collections_prefixing() {
    let mut collections = Collections::default();
    collections.lines = CollectionWithId::new(vec![
        TransitObject { id: String::from("line_1") },
        TransitObject { id: String::from("line_2") },
    ])
    .unwrap();
    collections.transfers = Collection::new(vec![TransitObject { id: String::from("transfer_1") }]);
    collections.stop_time_headsigns =
        vec![((String::from("trip_1"), 1u32), String::from("headsign"))];
    collections.stop_time_ids = vec![((String::from("trip_1"), 1u32), String::from("st_1"))];
    collections.add_prefix_with_sep("pre", ":");
    assert_eq!(collections.lines.values()[0].id, "pre:line_1");
    assert_eq!(collections.lines.values()[1].id, "pre:line_2");
    assert_eq!(collections.lines.len(), 2);
    assert_eq!(collections.transfers.values()[0].id, "pre:transfer_1");
    assert_eq!(collections.stop_time_headsigns[0].0.0, "pre:trip_1");
    assert_eq!(collections.stop_time_headsigns[0].0.1, 1u32);
    assert_eq!(collections.stop_time_headsigns[0].1, "headsign");
    assert_eq!(collections.stop_time_ids[0].0.0, "pre:trip_1");
    assert_eq!(collections.stop_time_ids[0].1, "pre:st_1");
}
