use iot_server::store::Store;
use iot_server::SensorData;

fn reading(device: &str, temp: &str, humidity: &str) -> SensorData {
    SensorData {
        device: device.as_bytes().to_vec(),
        temp: temp.as_bytes().to_vec(),
        humidity: humidity.as_bytes().to_vec(),
    }
}

#[test]
fn latest_on_empty_is_none_not_an_error() {
    let s = Store::new();
    let r = s.latest();
    assert!(r.is_ok());
    assert!(r.unwrap().is_none());
    assert_eq!(s.all().unwrap().len(), 0);
}

#[test]
fn insert_assigns_identity_and_timestamp() {
    let mut s = Store::new();
    let rec = s.insert(reading("sensor-1", "22.5", "55.0"), 1000).unwrap();
    assert_eq!(rec.id, 1);
    assert_eq!(rec.device_id, b"sensor-1".to_vec());
    assert_eq!(rec.temperature, b"22.5".to_vec());
    assert_eq!(rec.humidity, b"55.0".to_vec());
    assert_eq!(rec.created_at, 1000);
    let rec2 = s.insert(reading("sensor-2", "23", "0"), 1005).unwrap();
    assert_eq!(rec2.id, 2);
    assert_eq!(rec2.created_at, 1005);
}

#[test]
fn timestamps_never_go_backwards() {
    let mut s = Store::new();
    s.insert(reading("a", "1", "0"), 100).unwrap();
    let rec = s.insert(reading("b", "2", "0"), 50).unwrap();
    assert_eq!(rec.created_at, 100);
    let rec = s.insert(reading("c", "3", "0"), 200).unwrap();
    assert_eq!(rec.created_at, 200);
}

#[test]
fn all_returns_every_insert_newest_first() {
    let mut s = Store::new();
    let n: u64 = 5;
    for k in 0..n {
        s.insert(reading("sensor-1", "20", "40"), 100 + 10 * k).unwrap();
    }
    let all = s.all().unwrap();
    assert_eq!(all.len(), n as usize);
    for (pos, rec) in all.iter().enumerate() {
        assert_eq!(rec.id, n - pos as u64);
        assert_eq!(rec.created_at, 100 + 10 * (n - 1 - pos as u64));
    }
    for w in all.windows(2) {
        assert!(w[0].created_at >= w[1].created_at);
        assert!(w[0].id > w[1].id);
    }
    let latest = s.latest().unwrap().unwrap();
    assert_eq!(latest.id, all[0].id);
    assert_eq!(latest.created_at, all[0].created_at);
    assert_eq!(latest.device_id, all[0].device_id);
    assert_eq!(latest.temperature, all[0].temperature);
    assert_eq!(latest.humidity, all[0].humidity);
}

#[test]
fn equal_timestamps_are_tie_broken_by_identity() {
    let mut s = Store::new();
    s.insert(reading("a", "1", "0"), 100).unwrap();
    s.insert(reading("b", "2", "0"), 100).unwrap();
    s.insert(reading("c", "3", "0"), 100).unwrap();
    let all = s.all().unwrap();
    assert_eq!(all.len(), 3);
    assert_eq!(all[0].id, 3);
    assert_eq!(all[1].id, 2);
    assert_eq!(all[2].id, 1);
    assert_eq!(s.latest().unwrap().unwrap().id, 3);
}
