//! The allowance of a team over any course of events.

use vstd::prelude::*;

use crate::budget_laws::{used_by, version_in, Request};
use crate::course_laws::{
    accepted, all_callable, called, callable, commands, files_after_call, files_after_calls,
    files_with, held, no_more_commands_than_the_limit, refunded, smaller,
    the_smaller_number_is_accepted,
};
use crate::credential::{safe_id, CredentialView};
use crate::dispatch::{refusal_of, refused_intent_of};
use crate::policy::{
    authorization_of, credential_of, intent_of, opened_any, plan_of, refund_of, speed_is_number, Delivery,
    PolicyConfigView,
};
use crate::policy_laws::{the_velocity_topic_is_always_charged, velocity_topic};
use crate::runtime::AuthorityConfigView;
use crate::velocity_budget::{
    clamped_limit, rows_of, CsvFileView, FilesView, UpdateView,
};

verus! {

/// Something that the policy is asked for.
pub enum Event {
    /// An intent arrives.
    Intent { key: Seq<char>, payload: Seq<u8>, now: nat },
    /// A command that could not be published is given back to its team.
    Refund { credential: CredentialView, now: nat },
    /// An intent that was refused, for whatever reason, is answered.
    Refusal {
        runtime: AuthorityConfigView,
        key: Seq<char>,
        payload: Seq<u8>,
        message: Seq<char>,
        now: nat,
    },
}

/// The clock at an event.
pub open spec fn time_of(event: Event) -> nat {
    match event {
        Event::Intent { now, .. } => now,
        Event::Refund { now, .. } => now,
        Event::Refusal { now, .. } => now,
    }
}

/// Whether an event can happen: the clock is in range, and a speed that is
/// charged is the text of a number.
pub open spec fn possible(config: PolicyConfigView, event: Event) -> bool {
    &&& time_of(event) <= u128::MAX
    &&& event matches Event::Intent { key, payload, .. } ==> speed_is_number(config, key, payload)
}

/// The files after an event: what it saves is written, and read again by the
/// next one, so that nothing hangs on the policy that handles it.
pub open spec fn files_after(config: PolicyConfigView, files: FilesView, event: Event) -> FilesView {
    match event {
        Event::Intent { key, payload, now } => match authorization_of(
            config,
            files,
            now,
            key,
            payload,
        ) {
            Ok(authorization) => files_with(files, authorization.saved),
            Err(_) => files,
        },
        Event::Refund { credential, now } => match refund_of(config, files, credential, now) {
            Ok(update) => files_with(files, update.saved),
            Err(_) => files,
        },
        Event::Refusal { runtime, key, payload, message, now } => files_with(
            files,
            refusal_of(runtime, config, files, now, key, payload, message).saved,
        ),
    }
}

/// The files after `events`, in order.
pub open spec fn files_after_all(
    config: PolicyConfigView,
    files: FilesView,
    events: Seq<Event>,
) -> FilesView
    decreases events.len(),
{
    if events.len() == 0 {
        files
    } else {
        files_after(config, files_after_all(config, files, events.drop_last()), events.last())
    }
}

/// Whether an event lets a command of `device` through to the velocity topic.
pub open spec fn lets_through(
    config: PolicyConfigView,
    files: FilesView,
    event: Event,
    device: Seq<char>,
) -> bool {
    match event {
        Event::Intent { key, payload, now } => match authorization_of(
            config,
            files,
            now,
            key,
            payload,
        ) {
            Ok(authorization) => authorization.command.delivery == Delivery::Publish
                && authorization.command.target == velocity_topic(config)
                && authorization.command.velocity_device == Some(device),
            Err(_) => false,
        },
        _ => false,
    }
}

/// How many commands of `device` get through in the course of `events`.
pub open spec fn passed(
    config: PolicyConfigView,
    files: FilesView,
    events: Seq<Event>,
    device: Seq<char>,
) -> nat
    decreases events.len(),
{
    if events.len() == 0 {
        0
    } else {
        let earlier = files_after_all(config, files, events.drop_last());
        let count = passed(config, files, events.drop_last(), device);
        if lets_through(config, earlier, events.last(), device) {
            count + 1
        } else {
            count
        }
    }
}

/// Whether an event gives a command back to `device`.
pub open spec fn gives_back(
    config: PolicyConfigView,
    files: FilesView,
    event: Event,
    device: Seq<char>,
) -> bool {
    match event {
        Event::Refund { credential, now } => credential.device_id == device && refund_of(
            config,
            files,
            credential,
            now,
        ) is Ok,
        _ => false,
    }
}

/// How many refunds to `device` succeed in the course of `events`.
pub open spec fn given_back(
    config: PolicyConfigView,
    files: FilesView,
    events: Seq<Event>,
    device: Seq<char>,
) -> nat
    decreases events.len(),
{
    if events.len() == 0 {
        0
    } else {
        let earlier = files_after_all(config, files, events.drop_last());
        let count = given_back(config, files, events.drop_last(), device);
        if gives_back(config, earlier, events.last(), device) {
            count + 1
        } else {
            count
        }
    }
}

/// What an event asks of the budget store, if anything.
pub open spec fn request_in(config: PolicyConfigView, event: Event) -> Option<Request> {
    match event {
        Event::Intent { key, payload, now } => match plan_of(
            config,
            intent_of(config.intent_prefix, key),
            payload,
        ) {
            Ok(plan) => match plan.charge {
                Some(charge) => if safe_id(charge.team) {
                    Some(
                        Request {
                            credential: credential_of(charge.team),
                            update: charge.update,
                            now,
                        },
                    )
                } else {
                    None
                },
                None => None,
            },
            Err(_) => None,
        },
        Event::Refund { credential, now } => Some(
            Request { credential, update: UpdateView::Refund, now },
        ),
        Event::Refusal { runtime, key, payload, now, .. } => {
            let refused = refused_intent_of(intent_of(runtime.policy.intent_prefix, key));
            match opened_any(payload) {
                Some(envelope) => if refused is Velocity && safe_id(envelope.name) {
                    Some(
                        Request {
                            credential: credential_of(envelope.name),
                            update: UpdateView::Read,
                            now,
                        },
                    )
                } else {
                    None
                },
                None => None,
            }
        },
    }
}

/// Whether an event is a well-formed command of `device`: nothing stands
/// against it but the state of the budget.
pub open spec fn asks(config: PolicyConfigView, event: Event, device: Seq<char>) -> bool {
    request_in(config, event) matches Some(request) && request.update is Consume
        && request.credential.device_id == device
}

/// How many well-formed commands of `device` there are among `events`.
pub open spec fn asked(config: PolicyConfigView, events: Seq<Event>, device: Seq<char>) -> nat
    decreases events.len(),
{
    if events.len() == 0 {
        0
    } else {
        let count = asked(config, events.drop_last(), device);
        if asks(config, events.last(), device) {
            count + 1
        } else {
            count
        }
    }
}

/// What `events` ask of the budget store, in order.
pub open spec fn requests_in(config: PolicyConfigView, events: Seq<Event>) -> Seq<Request>
    decreases events.len(),
{
    if events.len() == 0 {
        Seq::empty()
    } else {
        let earlier = requests_in(config, events.drop_last());
        match request_in(config, events.last()) {
            Some(request) => earlier.push(request),
            None => earlier,
        }
    }
}

/// How many commands of `device` the files count, none where they cannot be
/// read.
pub open spec fn counted(config: PolicyConfigView, files: FilesView, device: Seq<char>) -> u32 {
    let limit = clamped_limit(config.velocity_budget);
    used_by(held(files, config.velocity_budget_csv, limit), device, limit)
}

/// An event does what its request does.
#[verifier::rlimit(40)]
proof fn an_event_is_its_request(
    config: PolicyConfigView,
    files: FilesView,
    event: Event,
    device: Seq<char>,
)
    requires
        possible(config, event),
    ensures
        ({
            let limit = clamped_limit(config.velocity_budget);
            let csv_path = config.velocity_budget_csv;
            match request_in(config, event) {
                Some(request) => {
                    let own = request.credential.device_id == device && called(
                        files,
                        csv_path,
                        limit,
                        request,
                    ) is Ok;
                    &&& callable(request)
                    &&& request.now == time_of(event)
                    &&& files_after(config, files, event) == files_after_call(
                        files,
                        csv_path,
                        limit,
                        request,
                    )
                    &&& lets_through(config, files, event, device) == (own
                        && request.update is Consume)
                    &&& gives_back(config, files, event, device) == (own
                        && request.update is Refund)
                },
                None => {
                    &&& files_after(config, files, event) == files
                    &&& !lets_through(config, files, event, device)
                    &&& !gives_back(config, files, event, device)
                },
            }
        }),
{
    match event {
        Event::Intent { key, payload, now } => {
            let intent = intent_of(config.intent_prefix, key);
            the_velocity_topic_is_always_charged(config, intent, payload);
        },
        _ => {},
    }
}

/// A course of events is the course of its requests.
proof fn events_are_their_requests(
    config: PolicyConfigView,
    files: FilesView,
    events: Seq<Event>,
    device: Seq<char>,
)
    requires
        forall|i: int| 0 <= i < events.len() ==> possible(config, #[trigger] events[i]),
    ensures
        ({
            let limit = clamped_limit(config.velocity_budget);
            let csv_path = config.velocity_budget_csv;
            let requests = requests_in(config, events);
            &&& all_callable(requests)
            &&& files_after_all(config, files, events) == files_after_calls(
                files,
                csv_path,
                limit,
                requests,
            )
            &&& passed(config, files, events, device) == accepted(
                files,
                csv_path,
                limit,
                requests,
                device,
            )
            &&& given_back(config, files, events, device) == refunded(
                files,
                csv_path,
                limit,
                requests,
                device,
            )
            &&& asked(config, events, device) == commands(requests, device)
        }),
    decreases events.len(),
{
    if events.len() > 0 {
        let front = events.drop_last();
        assert forall|i: int| 0 <= i < front.len() implies possible(config, #[trigger] front[i]) by {
            assert(front[i] == events[i]);
        }
        assert(possible(config, events[events.len() - 1]));
        events_are_their_requests(config, files, front, device);
        let earlier = files_after_all(config, files, front);
        an_event_is_its_request(config, earlier, events.last(), device);
        let requests = requests_in(config, front);
        match request_in(config, events.last()) {
            Some(request) => {
                assert(requests.push(request).drop_last() =~= requests);
            },
            None => {},
        }
    }
}

proof fn requests_keep_the_clock(config: PolicyConfigView, events: Seq<Event>, latest: nat)
    requires
        forall|i: int| 0 <= i < events.len() ==> time_of(#[trigger] events[i]) <= latest,
    ensures
        forall|i: int|
            0 <= i < requests_in(config, events).len() ==> (#[trigger] requests_in(
                config,
                events,
            )[i]).now <= latest,
    decreases events.len(),
{
    if events.len() > 0 {
        let front = events.drop_last();
        assert forall|i: int| 0 <= i < front.len() implies time_of(#[trigger] front[i])
            <= latest by {
            assert(front[i] == events[i]);
        }
        assert(time_of(events[events.len() - 1]) <= latest);
        requests_keep_the_clock(config, front, latest);
    }
}

/// However intents, refunds and the answers to refused intents follow one
/// another, however often the policy is restarted between them, and whatever
/// the files were at first: no more commands of a
/// team get through than its limit leaves it, which is at most five, plus the
/// refunds that succeed. Where none does, the files count exactly what got
/// through.
pub proof fn no_team_exceeds_its_allowance(
    config: PolicyConfigView,
    files: FilesView,
    events: Seq<Event>,
    device: Seq<char>,
)
    requires
        forall|i: int| 0 <= i < events.len() ==> possible(config, #[trigger] events[i]),
    ensures
        ({
            let limit = clamped_limit(config.velocity_budget);
            let after = files_after_all(config, files, events);
            let start = counted(config, files, device);
            let end = counted(config, after, device);
            let through = passed(config, files, events, device);
            let back = given_back(config, files, events, device);
            &&& end <= limit <= 5
            &&& start + through <= end + back
            &&& back == 0 ==> start + through == end
        }),
{
    events_are_their_requests(config, files, events, device);
    no_more_commands_than_the_limit(
        files,
        config.velocity_budget_csv,
        config.velocity_budget,
        requests_in(config, events),
        device,
    );
}

/// As long as the files can be read, and neither the clock nor the version
/// that a team starts from comes within the limit of the greatest version:
/// without refunds, of `n` well-formed commands of a team exactly the smaller
/// of `n` and what the limit leaves get through.
pub proof fn the_smaller_number_gets_through(
    config: PolicyConfigView,
    files: FilesView,
    events: Seq<Event>,
    device: Seq<char>,
    latest: nat,
)
    requires
        forall|i: int| 0 <= i < events.len() ==> possible(config, #[trigger] events[i]),
        forall|i: int| 0 <= i < events.len() ==> time_of(#[trigger] events[i]) <= latest,
        latest + clamped_limit(config.velocity_budget) <= u128::MAX,
        rows_of(
            files,
            config.velocity_budget_csv,
            clamped_limit(config.velocity_budget),
        ) matches Ok(rows) && version_in(rows, device) <= latest,
        given_back(config, files, events, device) == 0,
    ensures
        passed(config, files, events, device) == smaller(
            asked(config, events, device) as int,
            clamped_limit(config.velocity_budget) - counted(config, files, device),
        ),
{
    events_are_their_requests(config, files, events, device);
    requests_keep_the_clock(config, events, latest);
    the_smaller_number_is_accepted(
        files,
        config.velocity_budget_csv,
        config.velocity_budget,
        requests_in(config, events),
        device,
        latest,
    );
}

/// Files that have never been written can be read, and count nothing.
pub proof fn fresh_files_count_nothing(config: PolicyConfigView, device: Seq<char>)
    ensures
        ({
            let limit = clamped_limit(config.velocity_budget);
            let fresh = FilesView { csv: CsvFileView::Missing, mirror_exists: false };
            let rows = rows_of(fresh, config.velocity_budget_csv, limit);
            &&& rows is Ok
            &&& version_in(rows->Ok_0, device) == 0
            &&& counted(config, fresh, device) == 0
        }),
{
}

} // verus!
