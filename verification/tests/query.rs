use download_stats::query::{build_query, BY_DAY_ASCENDING, ONLY_VERSION, TOTALS_OF_PACKAGE};
use download_stats::request::DownloadRequest;

fn request(name: &str, version: Option<&str>) -> DownloadRequest {
    DownloadRequest::from_fields(Some(name.to_string()), version.map(|v| v.to_string())).unwrap()
}

#[test]
fn a_query_for_every_version_binds_the_name_only() {
    let query = build_query(&request("serde", None));
    assert_eq!(
        query.text(),
        "SELECT version_downloads.date, sum(version_downloads.downloads) \
         FROM crates \
         JOIN versions ON crates.id = versions.crate_id \
         JOIN version_downloads ON versions.id = version_downloads.version_id \
         WHERE crates.name = $1 \
         GROUP BY version_downloads.date \
         ORDER BY version_downloads.date ASC"
    );
    assert_eq!(query.params(), &vec!["serde".to_string()]);
}

#[test]
fn a_query_for_one_version_binds_name_and_version() {
    let query = build_query(&request("serde", Some("1.0.0")));
    assert_eq!(
        query.text(),
        "SELECT version_downloads.date, sum(version_downloads.downloads) \
         FROM crates \
         JOIN versions ON crates.id = versions.crate_id \
         JOIN version_downloads ON versions.id = version_downloads.version_id \
         WHERE crates.name = $1 \
         AND versions.num = $2 \
         GROUP BY version_downloads.date \
         ORDER BY version_downloads.date ASC"
    );
    assert_eq!(query.params(), &vec!["serde".to_string(), "1.0.0".to_string()]);
}

#[test]
fn the_two_texts_differ_by_the_version_condition_only() {
    let all = build_query(&request("serde", None));
    let one = build_query(&request("serde", Some("1.0.0")));
    assert_eq!(all.text(), &format!("{}{}", TOTALS_OF_PACKAGE, BY_DAY_ASCENDING));
    assert_eq!(one.text(), &format!("{}{}{}", TOTALS_OF_PACKAGE, ONLY_VERSION, BY_DAY_ASCENDING));
}

#[test]
fn the_text_never_holds_the_request_strings() {
    let hostile = "x'; DROP TABLE crates; --";
    let plain = build_query(&request("serde", Some("1.0.0")));
    let query = build_query(&request(hostile, Some(hostile)));
    assert_eq!(query.text(), plain.text());
    assert!(!query.text().contains("DROP"));
    assert_eq!(query.params(), &vec![hostile.to_string(), hostile.to_string()]);
}

#[test]
fn each_placeholder_has_its_value() {
    let all = build_query(&request("serde", None));
    assert!(all.text().contains("$1"));
    assert!(!all.text().contains("$2"));
    assert_eq!(all.params().len(), 1);
    let one = build_query(&request("serde", Some("1.0.0")));
    assert!(one.text().contains("$1"));
    assert!(one.text().contains("$2"));
    assert!(!one.text().contains("$3"));
    assert_eq!(one.params().len(), 2);
}
