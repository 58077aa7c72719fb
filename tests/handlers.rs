use homebrew_weather::{
    accept_form, authorized, handle_ingest, handle_latest, latest_reply, route, Config, FieldValue,
    IngestError, IngestForm, MemoryStore, Metric, PostgresServer, Reply, Route, WeatherReport,
};

fn config() -> Config {
    Config {
        apikey: "s3cret".to_string(),
        pg: PostgresServer {
            db_name: "weather".to_string(),
            username: "u".to_string(),
            password: "p".to_string(),
            address: "localhost".to_string(),
        },
        port: 8080,
    }
}

fn form(device_type: Option<&str>) -> IngestForm {
    IngestForm {
        temperature: FieldValue::Absent,
        humidity: FieldValue::Absent,
        percipitation: FieldValue::Absent,
        pm10: FieldValue::Absent,
        pm25: FieldValue::Absent,
        co2: FieldValue::Absent,
        tvoc: FieldValue::Absent,
        device_type: device_type.map(|d| d.to_string()),
    }
}

const KEY: Option<&str> = Some("s3cret");

#[test]
fn ingest_echoes_accepted_reading() {
    let mut store = MemoryStore::new();
    let mut f = form(Some("indoor"));
    f.temperature = FieldValue::Value(21.5f64.to_bits());
    let oid = WeatherReport::new(0).oid;
    let now = 1_700_000_123;
    match handle_ingest(&mut store, &config(), KEY, &f, oid.clone(), now) {
        Reply::Accepted(r) => {
            assert_eq!(r.temperature.map(f64::from_bits), Some(21.5));
            assert!(r.humidity.is_none() && r.percipitation.is_none() && r.pm10.is_none());
            assert!(r.pm25.is_none() && r.co2.is_none() && r.tvoc.is_none());
            assert_eq!(r.device_type, "indoor");
            assert!(!r.oid.is_empty());
            assert_eq!(r.oid, oid);
            assert_eq!(r.timestamp, now);
        }
        other => panic!("unexpected {:?}", other),
    }
}

#[test]
fn ingest_then_latest_keeps_identity() {
    let mut store = MemoryStore::new();
    let f = form(Some("outdoor"));
    assert!(matches!(handle_ingest(&mut store, &config(), KEY, &f, "n1".to_string(), 42), Reply::Accepted(_)));
    match handle_latest(&store, &config(), KEY) {
        Reply::Found(r) => {
            assert_eq!(r.device_type, "outdoor");
            assert_eq!(r.timestamp, 42);
            assert_eq!(r.oid, "n1");
            assert_eq!(r.id, 1);
        }
        other => panic!("unexpected {:?}", other),
    }
}

#[test]
fn reused_oid_merges_metrics() {
    let mut store = MemoryStore::new();
    let mut first = form(Some("indoor"));
    first.temperature = FieldValue::Value(20f64.to_bits());
    let mut second = form(Some("outdoor"));
    second.humidity = FieldValue::Value(55f64.to_bits());
    assert!(matches!(handle_ingest(&mut store, &config(), KEY, &first, "same".to_string(), 10), Reply::Accepted(_)));
    assert!(matches!(handle_ingest(&mut store, &config(), KEY, &second, "same".to_string(), 20), Reply::Accepted(_)));
    match handle_latest(&store, &config(), KEY) {
        Reply::Found(r) => {
            assert_eq!(r.temperature.map(f64::from_bits), Some(20.0));
            assert_eq!(r.humidity.map(f64::from_bits), Some(55.0));
            assert_eq!(r.device_type, "indoor");
            assert_eq!(r.timestamp, 10);
            assert_eq!(r.id, 1);
        }
        other => panic!("unexpected {:?}", other),
    }
}

#[test]
fn later_value_replaces_earlier_one() {
    let mut store = MemoryStore::new();
    let mut a = WeatherReport::with_oid("k".to_string(), "indoor".to_string(), 1);
    a.co2 = Some(400);
    a.tvoc = Some(9);
    let mut b = WeatherReport::with_oid("k".to_string(), "indoor".to_string(), 2);
    b.co2 = Some(500);
    assert!(store.upsert(&a).is_ok());
    assert!(store.upsert(&b).is_ok());
    let r = store.latest().unwrap();
    assert_eq!(r.co2, Some(500));
    assert_eq!(r.tvoc, Some(9));
}

#[test]
fn latest_is_the_last_ingested() {
    let mut store = MemoryStore::new();
    let a = form(Some("indoor"));
    let b = form(Some("outdoor"));
    assert!(matches!(handle_ingest(&mut store, &config(), KEY, &a, "a".to_string(), 100), Reply::Accepted(_)));
    assert!(matches!(handle_ingest(&mut store, &config(), KEY, &b, "b".to_string(), 200), Reply::Accepted(_)));
    match handle_latest(&store, &config(), KEY) {
        Reply::Found(r) => {
            assert_eq!(r.oid, "b");
            assert_eq!(r.timestamp, 200);
            assert_eq!(r.id, 2);
        }
        other => panic!("unexpected {:?}", other),
    }
}

#[test]
fn latest_on_empty_store_is_no_data() {
    let store = MemoryStore::new();
    assert!(matches!(handle_latest(&store, &config(), KEY), Reply::NoData));
    assert!(matches!(latest_reply(Vec::new()), Reply::NoData));
}

#[test]
fn latest_reply_takes_first_row() {
    let rows = vec![
        WeatherReport::with_oid("new".to_string(), "indoor".to_string(), 2),
        WeatherReport::with_oid("old".to_string(), "indoor".to_string(), 1),
    ];
    match latest_reply(rows) {
        Reply::Found(r) => assert_eq!(r.oid, "new"),
        other => panic!("unexpected {:?}", other),
    }
}

#[test]
fn bad_or_missing_key_is_not_found_everywhere() {
    let cfg = config();
    let mut store = MemoryStore::new();
    let mut f = form(Some("indoor"));
    f.temperature = FieldValue::Value(1);
    for key in [None, Some("wrong"), Some("s3cret "), Some("")] {
        assert!(!authorized(&cfg, key));
        assert_eq!(route(&cfg, key, "/api/weather_reports", "POST"), Route::NotFound);
        assert_eq!(route(&cfg, key, "/api/weather_reports", "GET"), Route::NotFound);
        assert_eq!(route(&cfg, key, "/elsewhere", "GET"), Route::NotFound);
        assert!(matches!(handle_ingest(&mut store, &cfg, key, &f, "x".to_string(), 1), Reply::NotFound));
        assert!(matches!(handle_ingest(&mut store, &cfg, key, &form(None), "x".to_string(), 1), Reply::NotFound));
        assert!(matches!(handle_latest(&store, &cfg, key), Reply::NotFound));
    }
    assert!(store.latest().is_none());
}

#[test]
fn routes_with_valid_key() {
    let cfg = config();
    assert!(authorized(&cfg, KEY));
    assert_eq!(route(&cfg, KEY, "/api/weather_reports", "POST"), Route::Ingest);
    assert_eq!(route(&cfg, KEY, "/api/weather_reports", "GET"), Route::Latest);
    assert_eq!(route(&cfg, KEY, "/api/weather_reports", "PUT"), Route::Other);
    assert_eq!(route(&cfg, KEY, "/", "GET"), Route::Other);
}

#[test]
fn malformed_metric_is_rejected() {
    let mut store = MemoryStore::new();
    let mut f = form(None);
    f.humidity = FieldValue::Malformed;
    f.tvoc = FieldValue::Malformed;
    match handle_ingest(&mut store, &config(), KEY, &f, "x".to_string(), 1) {
        Reply::Invalid(e) => {
            assert_eq!(e, IngestError::InvalidMetric(Metric::Humidity));
            assert_eq!(e.field_name(), "humidity");
        }
        other => panic!("unexpected {:?}", other),
    }
    assert!(store.latest().is_none());
}

#[test]
fn missing_device_type_is_rejected() {
    let mut f = form(None);
    f.pm10 = FieldValue::Value(3);
    let e = accept_form(&f, "x".to_string(), 1).unwrap_err();
    assert_eq!(e, IngestError::MissingDeviceType);
    assert_eq!(e.field_name(), "device_type");
}

#[test]
fn accepted_form_keeps_every_metric() {
    let mut f = form(Some("other"));
    f.percipitation = FieldValue::Value(1);
    f.pm10 = FieldValue::Value(2);
    f.pm25 = FieldValue::Value(3);
    f.co2 = FieldValue::Value(4);
    let r = accept_form(&f, "q".to_string(), 7).unwrap();
    assert_eq!(r.percipitation, Some(1));
    assert_eq!(r.pm10, Some(2));
    assert_eq!(r.pm25, Some(3));
    assert_eq!(r.co2, Some(4));
    assert_eq!(r.temperature, None);
    assert_eq!(r.oid, "q");
    assert_eq!(r.timestamp, 7);
}
