//! Reading a market price out of the reply of a chart service.

use vstd::prelude::*;
use vstd::string::StringExecFns;
use crate::text::{decimal_digits, unsigned_text};

verus! {

/// The HTTP status with which the chart service answers a good request.
pub const STATUS_OK: u16 = 200;

/// The result of asking a service for a value.
#[derive(Clone, Debug, PartialEq)]
pub enum ApiResult<T> {
    /// The service delivered the value.
    Success(T),
    /// The service answered, but not with a value.
    ApiError(String),
    /// The service could not be reached.
    NetworkError(String),
}

/// Mathematical view of an [`ApiResult`].
pub enum ApiView<T> {
    Success(T),
    ApiError(Seq<char>),
    NetworkError(Seq<char>),
}

impl<T> View for ApiResult<T> {
    type V = ApiView<T>;

    open spec fn view(&self) -> ApiView<T> {
        match *self {
            ApiResult::Success(value) => ApiView::Success(value),
            ApiResult::ApiError(message) => ApiView::ApiError(message@),
            ApiResult::NetworkError(message) => ApiView::NetworkError(message@),
        }
    }
}

/// Mathematical view of a chart body: the market price of each result
/// entry, where the entry has one; or the reason why the body could not be
/// read.
pub open spec fn body_view<T>(body: Result<Vec<Option<T>>, String>) -> Result<
    Seq<Option<T>>,
    Seq<char>,
> {
    match body {
        Ok(prices) => Ok(prices@),
        Err(reason) => Err(reason@),
    }
}

/// What a reply of the chart service amounts to for the asset `tag`: the
/// market price of the first result entry, when the status is 200 and the
/// body has such an entry with a price; otherwise an error that names the
/// asset and says what is wrong.
pub open spec fn chart_price_of<T>(
    tag: Seq<char>,
    status: int,
    body: Result<Seq<Option<T>>, Seq<char>>,
) -> ApiView<T> {
    if status != STATUS_OK {
        ApiView::ApiError(tag + ": HTTP "@ + decimal_digits(status as nat))
    } else {
        match body {
            Err(reason) => ApiView::ApiError(tag + ": JSON parse error: "@ + reason),
            Ok(prices) => if prices.len() == 0 {
                ApiView::ApiError(tag + ": empty result array"@)
            } else {
                match prices[0] {
                    Some(price) => ApiView::Success(price),
                    None => ApiView::ApiError(tag + ": regular_market_price missing"@),
                }
            },
        }
    }
}

/// What a failed request amounts to for the asset `tag`.
pub open spec fn request_failure_of<T>(tag: Seq<char>, reason: Seq<char>) -> ApiView<T> {
    ApiView::NetworkError(tag + ": request failed: "@ + reason)
}

/// Evaluates a reply of the chart service for the asset `tag`. `status` is
/// the HTTP status of the reply. `body` is looked at only when the status
/// is 200: it holds the market price of each result entry, or the reason
/// why the body could not be read.
pub fn chart_price<T>(tag: &str, status: u16, body: Result<Vec<Option<T>>, String>) -> (result:
    ApiResult<T>)
    ensures
        result@ == chart_price_of(tag@, status as int, body_view(body)),
{
    if status != STATUS_OK {
        let code = unsigned_text(status as u128);
        return ApiResult::ApiError(tag.to_owned().concat(": HTTP ").concat(code.as_str()));
    }
    match body {
        Err(reason) => ApiResult::ApiError(
            tag.to_owned().concat(": JSON parse error: ").concat(reason.as_str()),
        ),
        Ok(prices) => {
            let mut prices = prices;
            if prices.len() == 0 {
                ApiResult::ApiError(tag.to_owned().concat(": empty result array"))
            } else {
                match prices.remove(0) {
                    Some(price) => ApiResult::Success(price),
                    None => ApiResult::ApiError(
                        tag.to_owned().concat(": regular_market_price missing"),
                    ),
                }
            }
        },
    }
}

/// Reports that the request for the asset `tag` failed for `reason`.
pub fn request_failure<T>(tag: &str, reason: &str) -> (result: ApiResult<T>)
    ensures
        result@ == request_failure_of::<T>(tag@, reason@),
{
    ApiResult::NetworkError(tag.to_owned().concat(": request failed: ").concat(reason))
}

} // verus!
