//! Connection strings, the object-store key layout, and the statement
//! builders.

use iot_ingest::configuration::{get_bucket_key, AwsSettings, DatabaseSettings, Settings};
use iot_ingest::db::{fetch_devices_query, insert_metrics_query, placeholders};
use iot_ingest::keys::SensorDeviceRecive;

fn settings() -> Settings {
    Settings {
        database: DatabaseSettings {
            endpoint: String::from("db.example.net"),
            port: 3306,
            user: String::from("ingest"),
            password: String::from("pw"),
            database_name: String::from("telemetry"),
        },
        aws: AwsSettings { bucket_name: String::from("metrics-bucket") },
    }
}

#[test]
fn connection_string_holds_every_part() {
    let s = settings();
    assert_eq!(
        s.database.connection_string(),
        "mysql://ingest:pw@db.example.net:3306/telemetry?charset=utf8mb4&collation=utf8mb4_unicode_ci"
    );
}

#[test]
fn connection_string_without_db_stops_at_the_port() {
    let s = settings();
    assert_eq!(
        s.database.connection_string_without_db(),
        "mysql://ingest:pw@db.example.net:3306"
    );
}

#[test]
fn bucket_name_is_returned_as_configured() {
    assert_eq!(settings().aws.bucket_name(), "metrics-bucket");
}

#[test]
fn bucket_key_is_date_partitioned() {
    assert_eq!(
        get_bucket_key(2023, 5, 6, 7, 8, 9),
        "data-lake-metrics-teg-hy/year=2023/month=05/day=06/data-lake-metrics-2023-05-06T07:08:09.json"
    );
    assert_eq!(
        get_bucket_key(999, 12, 31, 23, 59, 0),
        "data-lake-metrics-teg-hy/year=0999/month=12/day=31/data-lake-metrics-0999-12-31T23:59:00.json"
    );
}

#[test]
fn bucket_key_keeps_wide_years_whole() {
    // Zero-padding is to a minimum width; a wider value is not truncated.
    assert_eq!(
        get_bucket_key(65535, 1, 2, 3, 4, 5),
        "data-lake-metrics-teg-hy/year=65535/month=01/day=02/data-lake-metrics-65535-01-02T03:04:05.json"
    );
}

#[test]
fn placeholders_are_comma_joined() {
    assert_eq!(placeholders(0), "");
    assert_eq!(placeholders(1), "?");
    assert_eq!(placeholders(3), "?,?,?");
}

#[test]
fn fetch_query_embeds_one_placeholder_per_device() {
    let q = fetch_devices_query(2);
    assert!(q.starts_with("select dl.id device_location_id,"));
    assert!(q.contains("d.mac_address IN (?,?) group by dl.id;"));
    assert!(q.contains("JSON_ARRAYAGG"));
}

#[test]
fn insert_query_embeds_one_row_per_metric() {
    let q = insert_metrics_query(2);
    assert!(q.starts_with("INSERT INTO metrics (device_location_id,"));
    assert!(q.ends_with("VALUES (?, ?, ?, ?, ?, ?, ?, ?, ?, ?, ?), (?, ?, ?, ?, ?, ?, ?, ?, ?, ?, ?)"));
}

#[test]
fn reading_constructor_keeps_its_parts() {
    let r = SensorDeviceRecive::new(
        String::from("AA"),
        String::from("probe-kind@S"),
        String::from("m@AA"),
        String::from("1.5"),
        String::from("ip"),
        String::from("t"),
    );
    assert_eq!(r.mac, "AA");
    assert_eq!(r.sensor_id, "probe-kind@S");
    assert_eq!(r.model_mac, "m@AA");
    assert_eq!(r.value, "1.5");
    assert_eq!(r.ip, "ip");
    assert_eq!(r.time_stamp, "t");
}
