use std::collections::HashMap;

use jet_lag_core::identifiers::{RouteIdentifier, StationIdentifier, TripIdentifier};

#[test]
fn test_identifier_equality() {
    let id1 = StationIdentifier::new("station_123");
    let id2 = StationIdentifier::new("station_123");
    let id3 = id1.clone();

    assert_eq!(id1, id2);
    assert_eq!(id1, id3);
}

#[test]
fn test_identifier_hash() {
    let mut map = HashMap::new();
    map.insert(StationIdentifier::new("test"), 42);

    assert_eq!(map.get(&StationIdentifier::new("test")), Some(&42));
}

#[test]
fn test_identifier_display() {
    let id = RouteIdentifier::new("route_1");
    assert_eq!(format!("{}", id.as_str()), "route_1");
}

#[test]
fn test_identifier_conversions() {
    let _id1: TripIdentifier = "trip_1".into();
    let _id2: TripIdentifier = String::from("trip_2").into();
}
