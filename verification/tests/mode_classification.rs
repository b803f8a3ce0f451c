use transit_model::modes::NetexMode;

#[test]
fn physical_mode_mapping() {
    assert_eq!(NetexMode::from_physical_mode_id("Air"), Some(NetexMode::Air));
    assert_eq!(NetexMode::from_physical_mode_id("Boat"), Some(NetexMode::Water));
    assert_eq!(NetexMode::from_physical_mode_id("Bus"), Some(NetexMode::Bus));
    assert_eq!(NetexMode::from_physical_mode_id("BusRapidTransit"), Some(NetexMode::Bus));
    assert_eq!(NetexMode::from_physical_mode_id("Coach"), Some(NetexMode::Coach));
    assert_eq!(NetexMode::from_physical_mode_id("Ferry"), Some(NetexMode::Water));
    assert_eq!(NetexMode::from_physical_mode_id("Funicular"), Some(NetexMode::Funicular));
    assert_eq!(NetexMode::from_physical_mode_id("LocalTrain"), Some(NetexMode::Rail));
    assert_eq!(NetexMode::from_physical_mode_id("LongDistanceTrain"), Some(NetexMode::Rail));
    assert_eq!(NetexMode::from_physical_mode_id("Metro"), Some(NetexMode::Metro));
    assert_eq!(NetexMode::from_physical_mode_id("RapidTransit"), Some(NetexMode::Rail));
    assert_eq!(NetexMode::from_physical_mode_id("RailShuttle"), Some(NetexMode::Rail));
    assert_eq!(NetexMode::from_physical_mode_id("Shuttle"), Some(NetexMode::Bus));
    assert_eq!(NetexMode::from_physical_mode_id("SuspendedCableCar"), Some(NetexMode::Cableway));
    assert_eq!(NetexMode::from_physical_mode_id("Train"), Some(NetexMode::Rail));
    assert_eq!(NetexMode::from_physical_mode_id("Tramway"), Some(NetexMode::Tram));
}

#[test]
fn unknown_physical_mode_has_no_mapping() {
    assert_eq!(NetexMode::from_physical_mode_id("Unicycle"), None);
    assert_eq!(NetexMode::from_physical_mode_id(""), None);
    assert_eq!(NetexMode::from_physical_mode_id("air"), None);
}

#[test]
fn highest_mode_priority() {
    let modes = vec![NetexMode::Bus, NetexMode::Rail, NetexMode::Air];
    assert_eq!(NetexMode::calculate_highest_mode(&modes), Some(NetexMode::Air));
    let empty: Vec<NetexMode> = Vec::new();
    assert_eq!(NetexMode::calculate_highest_mode(&empty), None);
    let cable = vec![NetexMode::Funicular, NetexMode::Cableway];
    assert_eq!(NetexMode::calculate_highest_mode(&cable), Some(NetexMode::Funicular));
}

#[test]
fn mode_priorities_are_ranked() {
    assert!(NetexMode::Air.priority() < NetexMode::Water.priority());
    assert!(NetexMode::Water.priority() < NetexMode::Rail.priority());
    assert!(NetexMode::Rail.priority() < NetexMode::Metro.priority());
    assert!(NetexMode::Metro.priority() < NetexMode::Tram.priority());
    assert!(NetexMode::Tram.priority() < NetexMode::Funicular.priority());
    assert!(NetexMode::Funicular.priority() < NetexMode::Cableway.priority());
    assert!(NetexMode::Cableway.priority() < NetexMode::Coach.priority());
    assert!(NetexMode::Coach.priority() < NetexMode::Bus.priority());
}

#[test]
fn mode_labels() {
    assert_eq!(NetexMode::Air.label(), "air");
    assert_eq!(NetexMode::Bus.label(), "bus");
    assert_eq!(NetexMode::Cableway.label(), "cableway");
    assert_eq!(NetexMode::Coach.label(), "coach");
    assert_eq!(NetexMode::Funicular.label(), "funicular");
    assert_eq!(NetexMode::Metro.label(), "metro");
    assert_eq!(NetexMode::Rail.label(), "rail");
    assert_eq!(NetexMode::Tram.label(), "tram");
    assert_eq!(NetexMode::Water.label(), "water");
}
