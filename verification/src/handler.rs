//! The handling of one request, as a machine that is told what happened and
//! says what to do next.
//!
//! The machine goes through four stages in a line: it reads the body, waits
//! for a connection, waits for the query's rows, and is done. It never waits
//! itself and holds nothing but the request, so it can be moved to whichever
//! thread does the next piece of work.

use vstd::prelude::*;
use crate::fault::{Fault, InputFault, InternalFault};
use crate::query::{Query, QueryView, build_query, query_of};
use crate::request::{
    DownloadRequest, RequestView, admit_body, request_of_fields, text_of, within_ceiling,
};
use crate::response::{
    DownloadResponse, Reply, ReplyView, failure_reply, response_of, success_reply,
};
use crate::series::{DownloadPoint, PointView, Timeseries, ascending, points_of};

verus! {

/// What was found in a body, as a mathematical value.
pub enum BodyView {
    /// No JSON object of the expected shape.
    Malformed,
    /// An object, with the text of its fields `name` and `version` where it has them.
    Fields { name: Option<Seq<char>>, version: Option<Seq<char>> },
}

/// Something that happened, as a mathematical value.
pub enum EventView {
    /// A body of `length` bytes arrived.
    Body { length: int, body: BodyView },
    /// The pool lent a connection.
    Connected,
    /// The store answered the query with these rows.
    Rows(Seq<PointView>),
    /// Something failed on the service's side.
    Failed(InternalFault),
}

/// What is to be done next, as a mathematical value.
pub enum ActionView {
    /// Borrow a connection from the pool.
    Borrow,
    /// Run the query on the borrowed connection, on a worker thread.
    Run(QueryView),
    /// Return the connection, if one is borrowed, and send the reply.
    Finish(ReplyView),
    /// The reply was sent before: nothing is left to do.
    Nothing,
}

/// A handler's stage, as a mathematical value.
pub enum HandlerView {
    /// Waiting for the body.
    Parse,
    /// Waiting for a connection to ask the request over.
    Acquire(RequestView),
    /// Waiting for the rows that answer the request.
    Execute(RequestView),
    /// The reply was sent.
    Done,
}

/// Whether a handler at this stage has a connection on loan.
pub open spec fn holds_connection(state: HandlerView) -> bool {
    state is Execute
}

/// The stage that follows, and what is to be done, when `event` happens to
/// a handler at stage `state`.
pub open spec fn step_of(state: HandlerView, event: EventView) -> (HandlerView, ActionView) {
    match (state, event) {
        (HandlerView::Done, _) => (HandlerView::Done, ActionView::Nothing),
        (_, EventView::Failed(fault)) => failed(Fault::Internal(fault)),
        (HandlerView::Parse, EventView::Body { length, body }) => {
            if !within_ceiling(length) {
                failed(Fault::Input(InputFault::Oversized))
            } else {
                match body {
                    BodyView::Malformed => failed(Fault::Input(InputFault::Malformed)),
                    BodyView::Fields { name, version } => match request_of_fields(name, version) {
                        Ok(request) => (HandlerView::Acquire(request), ActionView::Borrow),
                        Err(fault) => failed(Fault::Input(fault)),
                    },
                }
            }
        },
        (HandlerView::Acquire(request), EventView::Connected) => (
            HandlerView::Execute(request),
            ActionView::Run(query_of(request)),
        ),
        (HandlerView::Execute(request), EventView::Rows(points)) => {
            if ascending(points) {
                (
                    HandlerView::Done,
                    ActionView::Finish(success_reply(response_of(request, points))),
                )
            } else {
                failed(Fault::Internal(InternalFault::RowMapping))
            }
        },
        _ => failed(Fault::Internal(InternalFault::OutOfTurn)),
    }
}

/// The end of a request that failed with `fault`.
pub open spec fn failed(fault: Fault) -> (HandlerView, ActionView) {
    (HandlerView::Done, ActionView::Finish(failure_reply(fault)))
}

/// What was found in a body.
#[derive(Debug)]
pub enum Body {
    /// No JSON object of the expected shape.
    Malformed,
    /// An object, with its fields `name` and `version` where it has them.
    Fields { name: Option<String>, version: Option<String> },
}

impl View for Body {
    type V = BodyView;

    open spec fn view(&self) -> BodyView {
        match *self {
            Body::Malformed => BodyView::Malformed,
            Body::Fields { name, version } => BodyView::Fields {
                name: text_of(name),
                version: text_of(version),
            },
        }
    }
}

/// Something that happened while a request was handled.
#[derive(Debug)]
pub enum Event {
    /// A body of `length` bytes arrived.
    Body { length: usize, body: Body },
    /// The pool lent a connection.
    Connected,
    /// The store answered the query with these rows.
    Rows(Vec<DownloadPoint>),
    /// Something failed on the service's side.
    Failed(InternalFault),
}

impl View for Event {
    type V = EventView;

    open spec fn view(&self) -> EventView {
        match *self {
            Event::Body { length, body } => EventView::Body { length: length as int, body: body@ },
            Event::Connected => EventView::Connected,
            Event::Rows(points) => EventView::Rows(points_of(points@)),
            Event::Failed(fault) => EventView::Failed(fault),
        }
    }
}

/// What is to be done next for a request.
#[derive(Debug)]
pub enum Action {
    /// Borrow a connection from the pool.
    Borrow,
    /// Run the query on the borrowed connection, on a worker thread.
    Run(Query),
    /// Return the connection, if one is borrowed, and send the reply.
    Finish(Reply),
    /// The reply was sent before: nothing is left to do.
    Nothing,
}

impl View for Action {
    type V = ActionView;

    open spec fn view(&self) -> ActionView {
        match *self {
            Action::Borrow => ActionView::Borrow,
            Action::Run(query) => ActionView::Run(query@),
            Action::Finish(reply) => ActionView::Finish(reply@),
            Action::Nothing => ActionView::Nothing,
        }
    }
}

/// The handling of one request.
#[derive(Debug)]
pub enum Handler {
    /// Waiting for the body.
    Parse,
    /// Waiting for a connection to ask the request over.
    Acquire(DownloadRequest),
    /// Waiting for the rows that answer the request.
    Execute(DownloadRequest),
    /// The reply was sent.
    Done,
}

impl View for Handler {
    type V = HandlerView;

    open spec fn view(&self) -> HandlerView {
        match *self {
            Handler::Parse => HandlerView::Parse,
            Handler::Acquire(request) => HandlerView::Acquire(request@),
            Handler::Execute(request) => HandlerView::Execute(request@),
            Handler::Done => HandlerView::Done,
        }
    }
}

impl Clone for Handler {
    fn clone(&self) -> (copy: Handler)
        ensures
            copy@ == self@,
    {
        match self {
            Handler::Parse => Handler::Parse,
            Handler::Acquire(request) => Handler::Acquire(request.clone()),
            Handler::Execute(request) => Handler::Execute(request.clone()),
            Handler::Done => Handler::Done,
        }
    }
}

/// The end of a request that failed with `fault`.
fn fail(fault: Fault) -> (end: (Handler, Action))
    ensures
        (end.0@, end.1@) == failed(fault),
{
    (Handler::Done, Action::Finish(Reply::failure(fault)))
}

impl Handler {
    /// A handler for a request whose body has not arrived yet.
    pub fn new() -> (handler: Handler)
        ensures
            handler@ == HandlerView::Parse,
    {
        Handler::Parse
    }

    /// Whether the reply was sent.
    pub fn is_done(&self) -> (done: bool)
        ensures
            done == (self@ is Done),
    {
        match self {
            Handler::Done => true,
            _ => false,
        }
    }

    /// Takes note of `event` and says what is to be done next.
    pub fn step(self, event: Event) -> (next: (Handler, Action))
        ensures
            (next.0@, next.1@) == step_of(self@, event@),
    {
        match (self, event) {
            (Handler::Done, _) => (Handler::Done, Action::Nothing),
            (_, Event::Failed(fault)) => fail(Fault::Internal(fault)),
            (Handler::Parse, Event::Body { length, body }) => {
                match admit_body(length) {
                    Err(fault) => fail(Fault::Input(fault)),
                    Ok(()) => match body {
                        Body::Malformed => fail(Fault::Input(InputFault::Malformed)),
                        Body::Fields { name, version } => match DownloadRequest::from_fields(
                            name,
                            version,
                        ) {
                            Ok(request) => (Handler::Acquire(request), Action::Borrow),
                            Err(fault) => fail(Fault::Input(fault)),
                        },
                    },
                }
            },
            (Handler::Acquire(request), Event::Connected) => {
                let query = build_query(&request);
                (Handler::Execute(request), Action::Run(query))
            },
            (Handler::Execute(request), Event::Rows(points)) => {
                match Timeseries::from_points(points) {
                    Ok(series) => {
                        let response = DownloadResponse::new(&request, series);
                        (Handler::Done, Action::Finish(Reply::success(response)))
                    },
                    Err(fault) => fail(Fault::Internal(fault)),
                }
            },
            _ => fail(Fault::Internal(InternalFault::OutOfTurn)),
        }
    }
}

} // verus!
