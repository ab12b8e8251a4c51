//! What is sent back: the answer to a request, and the reply that carries
//! either an answer or nothing but a status.

use vstd::prelude::*;
use crate::fault::{Fault, STATUS_OK, fault_status};
use crate::request::{DownloadRequest, RequestView, text_of};
use crate::series::{PointView, Timeseries, is_timeseries};

verus! {

/// An answer as a mathematical value.
pub struct ResponseView {
    /// The package's name, as the request gave it.
    pub name: Seq<char>,
    /// The version, as the request gave it.
    pub version: Option<Seq<char>>,
    /// The daily totals, the earliest day first.
    pub downloads: Seq<PointView>,
}

/// The answer to `request` that reports `points`.
pub open spec fn response_of(request: RequestView, points: Seq<PointView>) -> ResponseView {
    ResponseView { name: request.name, version: request.version, downloads: points }
}

/// The answer to a request: its name and version as they came, and the
/// daily totals.
#[derive(Debug)]
pub struct DownloadResponse {
    name: String,
    version: Option<String>,
    downloads: Timeseries,
}

impl View for DownloadResponse {
    type V = ResponseView;

    closed spec fn view(&self) -> ResponseView {
        ResponseView {
            name: self.name@,
            version: text_of(self.version),
            downloads: self.downloads@,
        }
    }
}

impl DownloadResponse {
    /// The answer to `request` that reports `downloads`. Name and version are
    /// those of the request, not what the store holds.
    pub fn new(request: &DownloadRequest, downloads: Timeseries) -> (response: DownloadResponse)
        ensures
            response@ == response_of(request@, downloads@),
            is_timeseries(response@.downloads),
    {
        proof {
            use_type_invariant(&downloads);
        }
        let version = match request.version() {
            Some(v) => Some(v.clone()),
            None => None,
        };
        DownloadResponse { name: request.name().clone(), version, downloads }
    }

    /// The package's name, as the request gave it.
    pub fn name(&self) -> (name: &String)
        ensures
            name@ == self@.name,
    {
        &self.name
    }

    /// The version, as the request gave it.
    pub fn version(&self) -> (version: &Option<String>)
        ensures
            text_of(*version) == self@.version,
    {
        &self.version
    }

    /// The daily totals, the earliest day first.
    pub fn downloads(&self) -> (downloads: &Timeseries)
        ensures
            downloads@ == self@.downloads,
            is_timeseries(self@.downloads),
    {
        proof {
            use_type_invariant(&self.downloads);
        }
        &self.downloads
    }
}

/// A reply as a mathematical value.
pub struct ReplyView {
    /// The status.
    pub status: int,
    /// The answer; a reply to a failed request has none.
    pub body: Option<ResponseView>,
}

/// The reply that carries `response`.
pub open spec fn success_reply(response: ResponseView) -> ReplyView {
    ReplyView { status: 200, body: Some(response) }
}

/// The reply to a request that failed with `fault`: the fault's status and
/// nothing else, so that no detail of the failure leaves the service.
pub open spec fn failure_reply(fault: Fault) -> ReplyView {
    ReplyView { status: fault_status(fault), body: None }
}

/// The body of an optional answer.
pub open spec fn body_of(body: Option<DownloadResponse>) -> Option<ResponseView> {
    match body {
        Some(response) => Some(response@),
        None => None,
    }
}

/// What the client gets: a status, and with status 200 an answer.
#[derive(Debug)]
pub struct Reply {
    status: u16,
    body: Option<DownloadResponse>,
}

impl View for Reply {
    type V = ReplyView;

    closed spec fn view(&self) -> ReplyView {
        ReplyView { status: self.status as int, body: body_of(self.body) }
    }
}

impl Reply {
    /// The reply that carries `response`.
    pub fn success(response: DownloadResponse) -> (reply: Reply)
        ensures
            reply@ == success_reply(response@),
    {
        Reply { status: STATUS_OK, body: Some(response) }
    }

    /// The reply to a request that failed with `fault`.
    pub fn failure(fault: Fault) -> (reply: Reply)
        ensures
            reply@ == failure_reply(fault),
    {
        Reply { status: fault.status(), body: None }
    }

    /// The status.
    pub fn status(&self) -> (status: u16)
        ensures
            status as int == self@.status,
    {
        self.status
    }

    /// The answer; a reply to a failed request has none.
    pub fn body(&self) -> (body: &Option<DownloadResponse>)
        ensures
            body_of(*body) == self@.body,
    {
        &self.body
    }
}

} // verus!
