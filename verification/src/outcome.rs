//! The outcome of probing one target.

use vstd::prelude::*;

verus! {

/// Status code recorded when no response was received.
pub const NO_RESPONSE: i32 = -1;

/// What a single network attempt against one target produced.
#[derive(Clone, Debug, PartialEq, Eq)]
pub enum ProbeResult {
    /// The server answered with an HTTP status.
    Responded { status: u16, elapsed_ms: u128 },
    /// The attempt failed before any response arrived.
    Failed { message: String, elapsed_ms: u128 },
}

/// The finished record of probing one target.
#[derive(Clone, Debug, PartialEq, Eq)]
pub struct WebsiteStatus {
    /// The target that was probed.
    pub url: String,
    /// HTTP status, or [`NO_RESPONSE`] when none was received.
    pub status_code: i32,
    /// Duration of the attempt that produced this record, in milliseconds.
    pub response_time_ms: u128,
    /// When the record was made, in seconds since the Unix epoch.
    pub timestamp: u64,
    /// Why the probe could not complete, when it could not.
    pub error: Option<String>,
}

/// Mathematical view of a [`ProbeResult`].
pub enum ProbeView {
    Responded { status: int, elapsed_ms: nat },
    Failed { message: Seq<char>, elapsed_ms: nat },
}

/// Mathematical view of a [`WebsiteStatus`].
pub struct StatusView {
    pub url: Seq<char>,
    pub status_code: int,
    pub response_time_ms: nat,
    pub timestamp: nat,
    pub error: Option<Seq<char>>,
}

impl View for ProbeResult {
    type V = ProbeView;

    open spec fn view(&self) -> ProbeView {
        match *self {
            ProbeResult::Responded { status, elapsed_ms } => ProbeView::Responded {
                status: status as int,
                elapsed_ms: elapsed_ms as nat,
            },
            ProbeResult::Failed { message, elapsed_ms } => ProbeView::Failed {
                message: message@,
                elapsed_ms: elapsed_ms as nat,
            },
        }
    }
}

impl View for WebsiteStatus {
    type V = StatusView;

    open spec fn view(&self) -> StatusView {
        StatusView {
            url: self.url@,
            status_code: self.status_code as int,
            response_time_ms: self.response_time_ms as nat,
            timestamp: self.timestamp as nat,
            error: match self.error {
                Some(e) => Some(e@),
                None => None,
            },
        }
    }
}

impl StatusView {
    /// An error text is present exactly when the status is the
    /// no-response sentinel.
    pub open spec fn well_formed(self) -> bool {
        self.error is Some <==> self.status_code == NO_RESPONSE
    }
}

/// The record that a probe of `url`, finished at `timestamp`, leaves behind.
pub open spec fn record_of(url: Seq<char>, probe: ProbeView, timestamp: nat) -> StatusView {
    match probe {
        ProbeView::Responded { status, elapsed_ms } => StatusView {
            url,
            status_code: status,
            response_time_ms: elapsed_ms,
            timestamp,
            error: None,
        },
        ProbeView::Failed { message, elapsed_ms } => StatusView {
            url,
            status_code: NO_RESPONSE as int,
            response_time_ms: elapsed_ms,
            timestamp,
            error: Some(message),
        },
    }
}

impl WebsiteStatus {
    /// Builds the record for one attempt against `url`.
    pub fn from_probe(url: &str, probe: ProbeResult, timestamp: u64) -> (status: WebsiteStatus)
        ensures
            status@ == record_of(url@, probe@, timestamp as nat),
            status@.well_formed(),
    {
        match probe {
            ProbeResult::Responded { status, elapsed_ms } => WebsiteStatus {
                url: url.to_owned(),
                status_code: status as i32,
                response_time_ms: elapsed_ms,
                timestamp,
                error: None,
            },
            ProbeResult::Failed { message, elapsed_ms } => WebsiteStatus {
                url: url.to_owned(),
                status_code: NO_RESPONSE,
                response_time_ms: elapsed_ms,
                timestamp,
                error: Some(message),
            },
        }
    }
}

} // verus!
