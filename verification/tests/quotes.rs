use sitecheck::quotes::{chart_price, request_failure, ApiResult, STATUS_OK};

#[test]
fn good_status_is_200() {
    assert_eq!(STATUS_OK, 200);
}

#[test]
fn price_of_the_first_entry_is_delivered() {
    let body = Ok(vec![Some(64123.5f64), Some(1.0), None]);
    assert_eq!(chart_price("BTC-USD", 200, body), ApiResult::Success(64123.5));
}

#[test]
fn first_entry_without_price_is_an_api_error() {
    let body: Result<Vec<Option<f64>>, String> = Ok(vec![None, Some(2.0)]);
    assert_eq!(
        chart_price("ETH-USD", 200, body),
        ApiResult::ApiError("ETH-USD: regular_market_price missing".to_string())
    );
}

#[test]
fn no_entry_is_an_api_error() {
    let body: Result<Vec<Option<f64>>, String> = Ok(Vec::new());
    assert_eq!(
        chart_price("^GSPC", 200, body),
        ApiResult::ApiError("^GSPC: empty result array".to_string())
    );
}

#[test]
fn unreadable_body_is_an_api_error() {
    let body: Result<Vec<Option<f64>>, String> = Err("expected value at line 1 column 1".to_string());
    assert_eq!(
        chart_price("BTC-USD", 200, body),
        ApiResult::ApiError("BTC-USD: JSON parse error: expected value at line 1 column 1".to_string())
    );
}

#[test]
fn other_status_is_an_api_error_whatever_the_body() {
    let body = Ok(vec![Some(3u32)]);
    assert_eq!(chart_price("BTC-USD", 204, body), ApiResult::ApiError("BTC-USD: HTTP 204".to_string()));
    let body: Result<Vec<Option<u32>>, String> = Err("x".to_string());
    assert_eq!(chart_price("BTC-USD", 302, body), ApiResult::ApiError("BTC-USD: HTTP 302".to_string()));
    let body: Result<Vec<Option<u32>>, String> = Ok(Vec::new());
    assert_eq!(chart_price("T", 0, body), ApiResult::ApiError("T: HTTP 0".to_string()));
    let body: Result<Vec<Option<u32>>, String> = Ok(Vec::new());
    assert_eq!(chart_price("T", 65535, body), ApiResult::ApiError("T: HTTP 65535".to_string()));
}

#[test]
fn failed_request_is_a_network_error() {
    let result: ApiResult<f64> = request_failure("^GSPC", "Dns Failed: no such host");
    assert_eq!(
        result,
        ApiResult::NetworkError("^GSPC: request failed: Dns Failed: no such host".to_string())
    );
}
