use gw2_wvw::filesystem::{gen_filename, FileSystemPersistence};
use gw2_wvw::keyvalue::{key_value_item, range_filter_values};
use gw2_wvw::model::get_naive_mock;
use gw2_wvw::relational::{OracleAdapter, OraclePersistence};
use gw2_wvw::timestamp::Timestamp;

#[test]
fn file_name_from_identity_and_start() {
    assert_eq!(gen_filename("1-2", "2023-05-12 18:00:00 UTC"), "data/match_1-2_2023-05-12 18:00:00 UTC.json");
    assert_eq!(FileSystemPersistence::gen_filename("", ""), "data/match__.json");
}

#[test]
fn file_path_under_basepath() {
    let fs = FileSystemPersistence::new("/var/gw2".to_string());
    let m = get_naive_mock(Timestamp::from_unix_seconds(1683914400).unwrap());
    assert_eq!(fs.file_path(&m), "/var/gw2/data/match_1-1_2023-05-12 18:00:00 UTC.json");
}

#[test]
fn key_value_item_attributes() {
    let mut m = get_naive_mock(Timestamp::from_unix_seconds(1683914400).unwrap());
    m.end_time = Timestamp::from_unix_seconds(1683914460).unwrap();
    let item = key_value_item(&m, "{}".to_string());
    assert_eq!(item.matchup_key, "1-1 2023-05-12 18:00:00 UTC");
    assert_eq!(item.matchup_start_date, "2023-05-12T18:00:00+00:00");
    assert_eq!(item.matchup_end_date, "2023-05-12T18:01:00+00:00");
    assert_eq!(item.content, "{}");
    let (a, b) = range_filter_values(&m.start_time, &m.end_time);
    assert_eq!(a, "2023-05-12T18:00:00+00:00");
    assert_eq!(b, "2023-05-12T18:01:00+00:00");
}

#[test]
fn relational_settings_keep_credentials() {
    let a = OracleAdapter::new("db.example:1521/XE", "scraper", "pass");
    assert_eq!(a.config.connect_string, "db.example:1521/XE");
    assert_eq!(a.config.username, "scraper");
    assert_eq!(a.config.password, "pass");
    let p = OraclePersistence::new("h", "u", "p");
    assert_eq!(p.adapter.config.connect_string, "h");
    assert_eq!(p.adapter.config.username, "u");
    assert_eq!(p.adapter.config.password, "p");
}
