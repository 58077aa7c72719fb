use homebrew_weather::{plan_upsert, Metric, Statement, WeatherReport, OID_LEN};

#[test]
fn new_report_has_generated_oid_and_no_metrics() {
    let r = WeatherReport::new(1_700_000_000);
    assert_eq!(r.oid.chars().count(), OID_LEN);
    assert!(r.oid.chars().all(|c| c.is_ascii_alphanumeric()));
    assert_eq!(r.device_type, "other");
    assert_eq!(r.timestamp, 1_700_000_000);
    assert_eq!(r.id, 0);
    assert!(r.temperature.is_none() && r.humidity.is_none() && r.percipitation.is_none());
    assert!(r.pm10.is_none() && r.pm25.is_none() && r.co2.is_none() && r.tvoc.is_none());
}

#[test]
fn generated_oids_differ() {
    let a = WeatherReport::new(0);
    let b = WeatherReport::new(0);
    assert_ne!(a.oid, b.oid);
}

#[test]
fn table_name_schema_and_migrations() {
    assert_eq!(WeatherReport::sql_table_name(), "weather_reports");
    let s = WeatherReport::sql_build_statement();
    assert!(s.starts_with("CREATE TABLE public.weather_reports ("));
    assert!(s.contains("oid varchar NOT NULL UNIQUE"));
    assert_eq!(WeatherReport::migrations(), vec![""]);
}

#[test]
fn metric_accessors() {
    let mut r = WeatherReport::with_oid("x".to_string(), "indoor".to_string(), 5);
    r.set_metric(Metric::Co2, Some(412));
    assert_eq!(r.co2, Some(412));
    assert_eq!(r.metric(Metric::Co2), Some(412));
    assert_eq!(r.metric(Metric::Tvoc), None);
    assert_eq!(Metric::from_index(2), Metric::Percipitation);
    assert_eq!(Metric::Pm25.column(), "pm25");
}

#[test]
fn plan_for_new_row_inserts_then_updates_present_metrics() {
    let mut r = WeatherReport::with_oid("abc".to_string(), "indoor".to_string(), 99);
    r.temperature = Some(21.5f64.to_bits());
    r.tvoc = Some(3);
    let p = plan_upsert(&r, false);
    assert_eq!(p.len(), 3);
    match &p[0] {
        Statement::Insert { oid, device_type, timestamp } => {
            assert_eq!(oid, "abc");
            assert_eq!(device_type, "indoor");
            assert_eq!(*timestamp, 99);
        }
        _ => panic!("expected an insert"),
    }
    match &p[1] {
        Statement::SetMetric { metric, value, oid } => {
            assert_eq!(*metric, Metric::Temperature);
            assert_eq!(f64::from_bits(*value), 21.5);
            assert_eq!(oid, "abc");
        }
        _ => panic!("expected an update"),
    }
    assert!(matches!(&p[2], Statement::SetMetric { metric: Metric::Tvoc, value: 3, .. }));
    assert_eq!(
        p[0].sql(),
        "INSERT INTO weather_reports (oid, device_type, timestamp) VALUES ($1, $2, $3)"
    );
    assert_eq!(p[1].sql(), "UPDATE weather_reports SET temperature = $1 WHERE oid = $2;");
}

#[test]
fn plan_for_existing_row_only_updates() {
    let mut r = WeatherReport::with_oid("abc".to_string(), "indoor".to_string(), 99);
    r.humidity = Some(55);
    let p = plan_upsert(&r, true);
    assert_eq!(p.len(), 1);
    assert_eq!(p[0].sql(), "UPDATE weather_reports SET humidity = $1 WHERE oid = $2;");
    assert!(plan_upsert(&WeatherReport::with_oid("z".to_string(), "o".to_string(), 0), true).is_empty());
}
