//! What holds of every request: laws of the handler, step by step and over
//! whole courses of events.

use vstd::prelude::*;
use crate::fault::{Fault, InputFault, InternalFault};
use crate::handler::{ActionView, BodyView, EventView, HandlerView, holds_connection, step_of};
use crate::request::{RequestView, request_of_fields, within_ceiling};
use crate::response::{ReplyView, ResponseView, failure_reply, response_of, success_reply};
use crate::rows::{StoreRow, event_of, is_point_row};
use crate::series::{PointView, ascending, lemma_no_day_twice};
use crate::totals::{CounterView, counts_for, is_series_of, lemma_nothing_counted_gives_empty};

verus! {

/// The stage reached from `state` when `events` happen one after the other,
/// and what was to be done after each of them.
pub open spec fn run_of(state: HandlerView, events: Seq<EventView>) -> (
    HandlerView,
    Seq<ActionView>,
)
    decreases events.len(),
{
    if events.len() == 0 {
        (state, Seq::empty())
    } else {
        let before = run_of(state, events.drop_last());
        let last = step_of(before.0, events.last());
        (last.0, before.1.push(last.1))
    }
}

/// Whether an action reaches for the pool or the store.
pub open spec fn reaches_store(action: ActionView) -> bool {
    action is Borrow || action is Run
}

/// What is wrong with a body, if anything: it is over the ceiling, is no
/// object of the expected shape, or names no package.
pub open spec fn fault_of_body(length: int, body: BodyView) -> Option<InputFault> {
    if !within_ceiling(length) {
        Some(InputFault::Oversized)
    } else {
        match body {
            BodyView::Malformed => Some(InputFault::Malformed),
            BodyView::Fields { name, version } => match request_of_fields(name, version) {
                Ok(_) => None,
                Err(fault) => Some(fault),
            },
        }
    }
}

/// Whether a body is turned away.
pub open spec fn turned_away(length: int, body: BodyView) -> bool {
    fault_of_body(length, body) is Some
}

/// One action is asked for after each event.
pub proof fn lemma_one_action_each(state: HandlerView, events: Seq<EventView>)
    ensures
        run_of(state, events).1.len() == events.len(),
    decreases events.len(),
{
    if events.len() > 0 {
        lemma_one_action_each(state, events.drop_last());
    }
}

/// Once the reply is sent, nothing more is asked for, whatever happens.
pub proof fn lemma_done_asks_nothing(events: Seq<EventView>)
    ensures
        run_of(HandlerView::Done, events).0 == HandlerView::Done,
        forall|i: int|
            0 <= i < events.len() ==> #[trigger] run_of(HandlerView::Done, events).1[i]
                == ActionView::Nothing,
    decreases events.len(),
{
    lemma_one_action_each(HandlerView::Done, events);
    if events.len() > 0 {
        lemma_done_asks_nothing(events.drop_last());
        lemma_one_action_each(HandlerView::Done, events.drop_last());
    }
}

/// A body that is turned away is answered at once, in the 400 range, and
/// the pool and the store are never reached for that request: not for a body
/// over the ceiling, which is not even looked at, and not for one that names
/// no package.
pub proof fn lemma_turned_away_reaches_no_store(events: Seq<EventView>)
    requires
        events.len() > 0,
        events[0] matches EventView::Body { length, body } && turned_away(length, body),
    ensures
        run_of(HandlerView::Parse, events).0 == HandlerView::Done,
        events[0] matches EventView::Body { length, body } && fault_of_body(length, body)
            matches Some(fault) && run_of(HandlerView::Parse, events).1[0] == ActionView::Finish(
            failure_reply(Fault::Input(fault)),
        ),
        forall|i: int|
            0 <= i < events.len() ==> !reaches_store(
                #[trigger] run_of(HandlerView::Parse, events).1[i],
            ),
    decreases events.len(),
{
    lemma_one_action_each(HandlerView::Parse, events);
    let rest = events.drop_last();
    lemma_one_action_each(HandlerView::Parse, rest);
    if rest.len() > 0 {
        assert(rest[0] == events[0]);
        lemma_turned_away_reaches_no_store(rest);
    }
}

/// A body without a name is the client's fault: it is answered with status
/// 400 and no body, and the handler is done.
pub proof fn lemma_missing_name_is_input_fault(length: int, version: Option<Seq<char>>)
    requires
        within_ceiling(length),
    ensures
        step_of(
            HandlerView::Parse,
            EventView::Body { length, body: BodyView::Fields { name: None, version } },
        ) == (
            HandlerView::Done,
            ActionView::Finish(failure_reply(Fault::Input(InputFault::MissingName))),
        ),
        failure_reply(Fault::Input(InputFault::MissingName)) == (ReplyView {
            status: 400,
            body: None,
        }),
{
}

/// A body over the ceiling is answered with status 413 and no body,
/// whatever it holds, and the handler is done.
pub proof fn lemma_oversized_is_input_fault(length: int, body: BodyView)
    requires
        !within_ceiling(length),
    ensures
        step_of(HandlerView::Parse, EventView::Body { length, body }) == (
            HandlerView::Done,
            ActionView::Finish(ReplyView { status: 413, body: None }),
        ),
{
}

/// A body within the ceiling that names a package, but only then, makes the
/// handler borrow a connection.
pub proof fn lemma_borrows_for_a_request(length: int, body: BodyView)
    ensures
        step_of(HandlerView::Parse, EventView::Body { length, body }).1 is Borrow <==> !turned_away(
            length,
            body,
        ),
{
}

/// A handler with a connection on loan gives it back on whatever happens
/// next, a failure of the query included: the next action sends the reply,
/// and the handler is done.
pub proof fn lemma_connection_is_returned(request: RequestView, event: EventView)
    ensures
        step_of(HandlerView::Execute(request), event).1 is Finish,
        !holds_connection(step_of(HandlerView::Execute(request), event).0),
{
}

/// The order of the stages.
pub open spec fn stage_number(state: HandlerView) -> int {
    match state {
        HandlerView::Parse => 0,
        HandlerView::Acquire(_) => 1,
        HandlerView::Execute(_) => 2,
        HandlerView::Done => 3,
    }
}

/// A handler moves forward with every event until it is done. It borrows
/// only when it leaves the first stage and runs the query only when it
/// leaves the second, so it does each at most once; and it sends a reply
/// exactly when it becomes done.
pub proof fn lemma_stages_in_line(state: HandlerView, event: EventView)
    ensures
        state is Done || stage_number(state) < stage_number(step_of(state, event).0),
        step_of(state, event).1 is Borrow ==> state is Parse && step_of(state, event).0 is Acquire,
        step_of(state, event).1 is Run ==> state is Acquire && step_of(state, event).0 is Execute,
        step_of(state, event).1 is Finish <==> !(state is Done) && step_of(state, event).0 is Done,
        holds_connection(step_of(state, event).0) <==> step_of(state, event).1 is Run,
{
}

/// Any failure on the service's side ends the request with status 500 and
/// without an answer, at whatever stage it happens.
pub proof fn lemma_failure_is_internal(state: HandlerView, fault: InternalFault)
    requires
        !(state is Done),
    ensures
        step_of(state, EventView::Failed(fault)) == (
            HandlerView::Done,
            ActionView::Finish(ReplyView { status: 500, body: None }),
        ),
{
}

/// Rows in ascending order, and be it none at all, are answered with status
/// 200 and exactly those rows, under the name and the version of the request.
pub proof fn lemma_rows_are_answered(request: RequestView, points: Seq<PointView>)
    requires
        ascending(points),
    ensures
        step_of(HandlerView::Execute(request), EventView::Rows(points)) == (
            HandlerView::Done,
            ActionView::Finish(
                ReplyView {
                    status: 200,
                    body: Some(
                        ResponseView {
                            name: request.name,
                            version: request.version,
                            downloads: points,
                        },
                    ),
                },
            ),
        ),
{
}

/// A request whose rows are none at all is answered like any other: with
/// status 200 and an answer without a point.
pub proof fn lemma_no_rows_is_an_answer(request: RequestView)
    ensures
        step_of(HandlerView::Execute(request), EventView::Rows(Seq::empty())) == (
            HandlerView::Done,
            ActionView::Finish(
                ReplyView {
                    status: 200,
                    body: Some(
                        ResponseView {
                            name: request.name,
                            version: request.version,
                            downloads: Seq::empty(),
                        },
                    ),
                },
            ),
        ),
{
    lemma_rows_are_answered(request, Seq::empty());
}

/// An answer of the store with a row that is no daily total fails the whole
/// request: it ends with status 500 and without a body, and nothing of the
/// other rows is sent.
pub proof fn lemma_bad_row_fails_request(
    request: RequestView,
    rows: Seq<Option<StoreRow>>,
    k: int,
)
    requires
        0 <= k < rows.len(),
        !is_point_row(rows[k]),
    ensures
        step_of(HandlerView::Execute(request), event_of(rows)) == (
            HandlerView::Done,
            ActionView::Finish(ReplyView { status: 500, body: None }),
        ),
{
}

/// The store's answer to a request is served as it is, with status 200.
pub proof fn lemma_store_answer_is_served(
    request: RequestView,
    rows: Seq<CounterView>,
    points: Seq<PointView>,
)
    requires
        is_series_of(points, rows, request),
    ensures
        step_of(HandlerView::Execute(request), EventView::Rows(points)) == (
            HandlerView::Done,
            ActionView::Finish(success_reply(response_of(request, points))),
        ),
{
}

/// A request that none of the store's counters counts for is no error: it
/// is answered with status 200 and an answer without a point.
pub proof fn lemma_unmatched_request_is_answered(
    request: RequestView,
    rows: Seq<CounterView>,
    points: Seq<PointView>,
)
    requires
        is_series_of(points, rows, request),
        forall|k: int| 0 <= k < rows.len() ==> !counts_for(#[trigger] rows[k], request),
    ensures
        step_of(HandlerView::Execute(request), EventView::Rows(points)) == (
            HandlerView::Done,
            ActionView::Finish(
                ReplyView {
                    status: 200,
                    body: Some(
                        ResponseView {
                            name: request.name,
                            version: request.version,
                            downloads: Seq::empty(),
                        },
                    ),
                },
            ),
        ),
{
    lemma_nothing_counted_gives_empty(points, rows, request);
}

/// Whatever answer a handler sends has status 200 and holds its days in
/// ascending order, no day twice.
pub proof fn lemma_answers_ascend(state: HandlerView, event: EventView)
    ensures
        step_of(state, event).1 matches ActionView::Finish(reply) ==> (reply.body matches Some(
            response,
        ) ==> reply.status == 200 && ascending(response.downloads) && forall|i: int, j: int|
            0 <= i < response.downloads.len() && 0 <= j < response.downloads.len() && i != j ==> (
            #[trigger] response.downloads[i]).date != (#[trigger] response.downloads[j]).date),
{
    if let ActionView::Finish(reply) = step_of(state, event).1 {
        if let Some(response) = reply.body {
            lemma_no_day_twice(response.downloads);
        }
    }
}

/// The request that a handler works on, if it has one.
pub open spec fn request_in(state: HandlerView) -> Option<RequestView> {
    match state {
        HandlerView::Acquire(request) => Some(request),
        HandlerView::Execute(request) => Some(request),
        _ => None,
    }
}

/// While a handler works on a request, it is the one that the body gave.
proof fn lemma_request_is_kept(events: Seq<EventView>)
    requires
        events.len() > 0,
        events[0] is Body,
    ensures
        request_in(run_of(HandlerView::Parse, events).0) matches Some(request) ==> (
        events[0] matches EventView::Body { length, body } && body matches BodyView::Fields {
            name,
            version,
        } && name == Some(request.name) && version == request.version),
    decreases events.len(),
{
    let rest = events.drop_last();
    if rest.len() > 0 {
        assert(rest[0] == events[0]);
        lemma_request_is_kept(rest);
    }
}

/// An answer carries the name and the version of the body that asked for
/// it, letter for letter, and no version where the body had none.
pub proof fn lemma_answer_echoes_body(events: Seq<EventView>, i: int)
    requires
        0 <= i < events.len(),
        events[0] is Body,
        run_of(HandlerView::Parse, events).1[i] matches ActionView::Finish(reply)
            && reply.body is Some,
    ensures
        events[0] matches EventView::Body { length, body } && body matches BodyView::Fields {
            name,
            version,
        } && run_of(HandlerView::Parse, events).1[i] matches ActionView::Finish(reply)
            && reply.body matches Some(response) && name == Some(response.name) && version
            == response.version,
    decreases events.len(),
{
    let rest = events.drop_last();
    lemma_one_action_each(HandlerView::Parse, rest);
    if i < rest.len() {
        assert(rest[0] == events[0]);
        lemma_answer_echoes_body(rest, i);
    } else if rest.len() > 0 {
        assert(rest[0] == events[0]);
        lemma_request_is_kept(rest);
    }
}

/// An event of one of two requests that are handled at the same time.
pub struct Addressed {
    /// Whether the event is the first request's.
    pub to_first: bool,
    /// What happened.
    pub event: EventView,
}

/// The events of one of the two requests, in the order in which they happen.
pub open spec fn events_for(schedule: Seq<Addressed>, first: bool) -> Seq<EventView>
    decreases schedule.len(),
{
    if schedule.len() == 0 {
        Seq::empty()
    } else {
        let before = events_for(schedule.drop_last(), first);
        if schedule.last().to_first == first {
            before.push(schedule.last().event)
        } else {
            before
        }
    }
}

/// The stages that two handlers reach, and the actions asked of each, when
/// the events of `schedule` happen one after the other, each to the handler
/// it is addressed to.
pub open spec fn run_both(a: HandlerView, b: HandlerView, schedule: Seq<Addressed>) -> (
    (HandlerView, Seq<ActionView>),
    (HandlerView, Seq<ActionView>),
)
    decreases schedule.len(),
{
    if schedule.len() == 0 {
        ((a, Seq::empty()), (b, Seq::empty()))
    } else {
        let before = run_both(a, b, schedule.drop_last());
        let last = schedule.last();
        if last.to_first {
            let next = step_of(before.0.0, last.event);
            ((next.0, before.0.1.push(next.1)), before.1)
        } else {
            let next = step_of(before.1.0, last.event);
            (before.0, (next.0, before.1.1.push(next.1)))
        }
    }
}

/// Two requests that are handled at the same time do not touch each other:
/// in whatever order their events fall, each handler reaches the stage and
/// asks for the actions that it would with its own events alone.
pub proof fn lemma_requests_do_not_interfere(
    a: HandlerView,
    b: HandlerView,
    schedule: Seq<Addressed>,
)
    ensures
        run_both(a, b, schedule).0 == run_of(a, events_for(schedule, true)),
        run_both(a, b, schedule).1 == run_of(b, events_for(schedule, false)),
    decreases schedule.len(),
{
    if schedule.len() > 0 {
        let earlier = schedule.drop_last();
        lemma_requests_do_not_interfere(a, b, earlier);
        let last = schedule.last();
        let own = events_for(earlier, last.to_first);
        assert(own.push(last.event).drop_last() =~= own);
        assert(own.push(last.event).last() == last.event);
    }
}

} // verus!
