use iot_server::handlers::get_all;
use iot_server::handlers::get_latest;
use iot_server::handlers::record_from_row;
use iot_server::store::Store;
use iot_server::subscriber::ingest;
use iot_server::subscriber::step;
use iot_server::subscriber::SubscriberAction;
use iot_server::subscriber::SubscriberEvent;
use iot_server::subscriber::SubscriberState;

#[test]
fn decode_failure_produces_zero_rows() {
    let mut s = Store::new();
    assert!(ingest(&mut s, b"not-json", 10).is_err());
    assert_eq!(get_all(&s).unwrap().len(), 0);
    assert!(get_latest(&s).unwrap().is_none());
}

#[test]
fn decode_failure_then_valid_message_keeps_only_the_valid_one() {
    let mut s = Store::new();
    assert!(ingest(&mut s, b"{\"device\":7}", 10).is_err());
    let rec = ingest(&mut s, br#"{"device":"sensor-1","temp":22.5}"#, 20).unwrap();
    assert_eq!(rec.id, 1);
    let all = get_all(&s).unwrap();
    assert_eq!(all.len(), 1);
    assert_eq!(all[0].device_id, b"sensor-1".to_vec());
    assert_eq!(all[0].humidity, b"0".to_vec());
}

#[test]
fn full_payload_reaches_the_query_surface() {
    let mut s = Store::new();
    ingest(&mut s, br#"{"device":"sensor-1","temp":22.5,"humidity":55.0}"#, 1234).unwrap();
    let latest = get_latest(&s).unwrap().unwrap();
    assert_eq!(latest.id, 1);
    assert_eq!(latest.device_id, b"sensor-1".to_vec());
    assert_eq!(latest.temperature, b"22.5".to_vec());
    assert_eq!(latest.humidity, b"55.0".to_vec());
    assert_eq!(latest.created_at, 1234);
    let temperature: f64 = String::from_utf8(latest.temperature).unwrap().parse().unwrap();
    let humidity: f64 = String::from_utf8(latest.humidity).unwrap().parse().unwrap();
    assert_eq!(temperature, 22.5);
    assert_eq!(humidity, 55.0);
}

#[test]
fn step_inserts_a_decodable_publish() {
    let payload = br#"{"device":"sensor-1","temp":22.5}"#.to_vec();
    let (state, action) = step(SubscriberState::Receiving, SubscriberEvent::Publish(payload));
    assert_eq!(state, SubscriberState::Receiving);
    match action {
        SubscriberAction::Insert(data) => {
            assert_eq!(data.device, b"sensor-1".to_vec());
            assert_eq!(data.temp, b"22.5".to_vec());
            assert_eq!(data.humidity, b"0".to_vec());
        },
        _ => panic!("a decodable publish must be inserted"),
    }
}

#[test]
fn step_drops_a_malformed_publish_and_carries_on() {
    let (state, action) = step(
        SubscriberState::Receiving,
        SubscriberEvent::Publish(b"not-json".to_vec()),
    );
    assert_eq!(state, SubscriberState::Receiving);
    assert!(matches!(action, SubscriberAction::DropMalformed));
}

#[test]
fn step_ignores_other_notifications() {
    let (state, action) = step(SubscriberState::Receiving, SubscriberEvent::Other);
    assert_eq!(state, SubscriberState::Receiving);
    assert!(matches!(action, SubscriberAction::Ignore));
}

#[test]
fn step_stops_for_good_on_a_transport_error() {
    let (state, action) = step(SubscriberState::Receiving, SubscriberEvent::TransportError);
    assert_eq!(state, SubscriberState::Disconnected);
    assert!(matches!(action, SubscriberAction::Stop));
    let (state, action) = step(state, SubscriberEvent::Other);
    assert_eq!(state, SubscriberState::Disconnected);
    assert!(matches!(action, SubscriberAction::Stop));
    let (state, action) = step(
        SubscriberState::Disconnected,
        SubscriberEvent::Publish(br#"{"device":"a","temp":1}"#.to_vec()),
    );
    assert_eq!(state, SubscriberState::Disconnected);
    assert!(matches!(action, SubscriberAction::Stop));
}

#[test]
fn row_conversion_defaults_a_missing_humidity() {
    let rec = record_from_row(7, b"sensor-1".to_vec(), b"21.5".to_vec(), None, 999);
    assert_eq!(rec.id, 7);
    assert_eq!(rec.device_id, b"sensor-1".to_vec());
    assert_eq!(rec.temperature, b"21.5".to_vec());
    assert_eq!(rec.humidity, b"0".to_vec());
    assert_eq!(rec.created_at, 999);
    let rec = record_from_row(8, b"s".to_vec(), b"1".to_vec(), Some(b"40.5".to_vec()), 1000);
    assert_eq!(rec.humidity, b"40.5".to_vec());
}
