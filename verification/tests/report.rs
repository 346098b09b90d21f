use sitecheck::outcome::WebsiteStatus;
use sitecheck::report::{
    format_header, format_row, format_rule, RULE_WIDTH, STATUS_WIDTH, TIME_WIDTH, URL_WIDTH,
};

fn sample(url: &str, status_code: i32, response_time_ms: u128, error: Option<&str>) -> WebsiteStatus {
    WebsiteStatus {
        url: url.to_string(),
        status_code,
        response_time_ms,
        timestamp: 1_700_000_000,
        error: error.map(|e| e.to_string()),
    }
}

fn expected_row(status: &WebsiteStatus) -> String {
    format!(
        "{:<40}  {:>3}  {:>6} ms  {}  {}",
        status.url,
        status.status_code,
        status.response_time_ms,
        status.timestamp,
        status.error.as_deref().unwrap_or("-")
    )
}

#[test]
fn column_widths() {
    assert_eq!((URL_WIDTH, STATUS_WIDTH, TIME_WIDTH, RULE_WIDTH), (40, 3, 6, 95));
}

#[test]
fn row_of_a_good_answer() {
    let status = sample("https://ok.example", 200, 10, None);
    assert_eq!(
        format_row(&status),
        "https://ok.example                        200      10 ms  1700000000  -"
    );
}

#[test]
fn row_of_a_failure() {
    let status = sample("https://slow.example", -1, 200, Some("timed out"));
    assert_eq!(
        format_row(&status),
        "https://slow.example                       -1     200 ms  1700000000  timed out"
    );
}

#[test]
fn rows_are_laid_out_as_the_standard_formatter_lays_them_out() {
    let long = "https://a-very-long-host-name.example/with/a/long/path?and=query";
    let samples = vec![
        sample("", 0, 0, None),
        sample("x", 5, 7, Some("")),
        sample(long, 503, 1234567, Some("bad gateway")),
        sample("https://exactly-forty-characters.example/ab", 404, 999999, None),
        sample("https://ünïcödé.example", 65535, 1000000, None),
        sample("t", -1, u128::MAX, Some("e")),
        sample("t", i32::MIN, 12, None),
        sample("t", 99, 99999, None),
        sample("t", 100, 100000, None),
    ];
    for status in samples {
        assert_eq!(format_row(&status), expected_row(&status));
    }
}

#[test]
fn timestamp_is_printed_in_full() {
    let mut status = sample("t", 200, 1, None);
    status.timestamp = u64::MAX;
    assert_eq!(format_row(&status), expected_row(&status));
    status.timestamp = 0;
    assert_eq!(format_row(&status), expected_row(&status));
}

#[test]
fn header_names_the_columns() {
    let expected = format!(
        "{:<40}  {:>3}  {:>6}    {}  {}",
        "URL", "SC", "RT(ms)", "UNIX_TS", "ERROR"
    );
    assert_eq!(format_header(), expected);
    assert_eq!(
        format_header(),
        "URL                                        SC  RT(ms)    UNIX_TS  ERROR"
    );
}

#[test]
fn rule_is_95_dashes() {
    assert_eq!(format_rule(), "-".repeat(95));
}
