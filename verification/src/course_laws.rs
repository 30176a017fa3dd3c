//! What holds of a budget over any course of calls.
//!
//! The calls run one at a time, on any stores with the same paths and limit;
//! what a call saves is written to the files, and the next call reads them.

use vstd::prelude::*;

use crate::budget_laws::{
    a_command_uses_one, a_refund_fails_only_at_the_last_version, files_hold_readable_rows,
    one_request_counts_right, reports_are_kept, rows_kept, saved_rows_are_readable, starting_row,
    state_in, used_by, version_in, versions_grow, Request,
};
use crate::credential::{safe_id, CredentialView};
use crate::csv::csv_text;
use crate::csv_laws::{csv_reads_back, readable, settled_rows_are_found};
use crate::ledger::{ordered, rank, rank_splits, registered, registered_at_rank, RecordView};
use crate::number::{decimal_reads_back, unsigned};
use crate::speed::speed_text;
use crate::velocity_budget::{
    clamped_limit, outcome_of, rows_after, rows_of, version_after, BudgetUpdateView, CsvFileView,
    FilesView, StateView, UpdateView,
};

verus! {

/// Whether a store can be called with `request`: the clock is in range, a
/// command comes from a team, and a speed is the text of a number.
pub open spec fn callable(request: Request) -> bool {
    &&& request.now <= u128::MAX
    &&& request.update is Consume ==> safe_id(request.credential.device_id)
    &&& request.update matches UpdateView::Consume(Some(speed)) ==> speed_text(speed)
}

/// Whether a store can be called with each of `requests`.
pub open spec fn all_callable(requests: Seq<Request>) -> bool {
    forall|i: int| 0 <= i < requests.len() ==> callable(#[trigger] requests[i])
}

/// The files after `saved` has been written to them.
pub open spec fn files_with(files: FilesView, saved: Option<Seq<RecordView>>) -> FilesView {
    match saved {
        Some(rows) => FilesView {
            csv: CsvFileView::Contents(csv_text(rows)),
            mirror_exists: true,
        },
        None => files,
    }
}

/// What a call with `request` comes to.
pub open spec fn called(files: FilesView, csv_path: Seq<char>, limit: u32, request: Request) -> Result<
    BudgetUpdateView,
    Seq<char>,
> {
    outcome_of(files, csv_path, limit, request.credential, request.update, request.now)
}

/// The files after a call.
pub open spec fn files_after_call(
    files: FilesView,
    csv_path: Seq<char>,
    limit: u32,
    request: Request,
) -> FilesView {
    match called(files, csv_path, limit, request) {
        Ok(update) => files_with(files, update.saved),
        Err(_) => files,
    }
}

/// The files after calls with `requests`, in order.
pub open spec fn files_after_calls(
    files: FilesView,
    csv_path: Seq<char>,
    limit: u32,
    requests: Seq<Request>,
) -> FilesView
    decreases requests.len(),
{
    if requests.len() == 0 {
        files
    } else {
        files_after_call(
            files_after_calls(files, csv_path, limit, requests.drop_last()),
            csv_path,
            limit,
            requests.last(),
        )
    }
}

/// What the call with `requests[i]` comes to in the course of `requests`.
pub open spec fn outcome_at(
    files: FilesView,
    csv_path: Seq<char>,
    limit: u32,
    requests: Seq<Request>,
    i: int,
) -> Result<BudgetUpdateView, Seq<char>> {
    called(files_after_calls(files, csv_path, limit, requests.take(i)), csv_path, limit, requests[i])
}

/// The rows that the files hold, none where they cannot be read.
pub open spec fn held(files: FilesView, csv_path: Seq<char>, limit: u32) -> Seq<RecordView> {
    match rows_of(files, csv_path, limit) {
        Ok(rows) => rows,
        Err(_) => Seq::empty(),
    }
}

/// After a call the files hold the rows that it keeps, as far as counts,
/// versions and reports go; files that cannot be read stay as they are.
pub proof fn calls_are_kept(
    files: FilesView,
    csv_path: Seq<char>,
    limit: u32,
    request: Request,
    id: Seq<char>,
    credential: CredentialView,
)
    requires
        callable(request),
    ensures
        ({
            let after = files_after_call(files, csv_path, limit, request);
            let rows = held(files, csv_path, limit);
            let kept = rows_kept(rows, limit, request);
            let again = held(after, csv_path, limit);
            &&& rows_of(files, csv_path, limit) is Err ==> after == files && called(
                files,
                csv_path,
                limit,
                request,
            ) is Err
            &&& rows_of(files, csv_path, limit) is Ok ==> {
                &&& rows_of(after, csv_path, limit) is Ok
                &&& used_by(again, id, limit) == used_by(kept, id, limit)
                &&& version_in(again, id) == version_in(kept, id)
                &&& registered(again, id) == registered(kept, id)
                &&& state_in(again, limit, credential) == state_in(kept, limit, credential)
            }
        }),
{
    files_hold_readable_rows(files, csv_path, limit);
    match rows_of(files, csv_path, limit) {
        Ok(rows) => {
            saved_rows_are_readable(rows, limit, request.credential, request.update, request.now);
            match rows_after(rows, limit, request.credential, request.update, request.now) {
                Ok(outcome) => match outcome.saved {
                    Some(after) => {
                        csv_reads_back(after, limit);
                        settled_rows_are_found(after, id);
                        settled_rows_are_found(after, credential.device_id);
                    },
                    None => {},
                },
                Err(_) => {},
            }
        },
        Err(_) => {},
    }
}

/// The calls before the last, then the last.
proof fn take_one_more(requests: Seq<Request>, i: int)
    requires
        0 <= i < requests.len(),
    ensures
        requests.take(i + 1).drop_last() == requests.take(i),
        requests.take(i + 1).last() == requests[i],
{
    assert(requests.take(i + 1).drop_last() =~= requests.take(i));
}

/// How many commands of `id` are accepted in the course of `requests`.
pub open spec fn accepted(
    files: FilesView,
    csv_path: Seq<char>,
    limit: u32,
    requests: Seq<Request>,
    id: Seq<char>,
) -> nat
    decreases requests.len(),
{
    if requests.len() == 0 {
        0
    } else {
        let earlier = files_after_calls(files, csv_path, limit, requests.drop_last());
        let last = requests.last();
        let count = accepted(files, csv_path, limit, requests.drop_last(), id);
        if last.credential.device_id == id && last.update is Consume && called(
            earlier,
            csv_path,
            limit,
            last,
        ) is Ok {
            count + 1
        } else {
            count
        }
    }
}

/// How many refunds to `id` succeed in the course of `requests`.
pub open spec fn refunded(
    files: FilesView,
    csv_path: Seq<char>,
    limit: u32,
    requests: Seq<Request>,
    id: Seq<char>,
) -> nat
    decreases requests.len(),
{
    if requests.len() == 0 {
        0
    } else {
        let earlier = files_after_calls(files, csv_path, limit, requests.drop_last());
        let last = requests.last();
        let count = refunded(files, csv_path, limit, requests.drop_last(), id);
        if last.credential.device_id == id && last.update is Refund && called(
            earlier,
            csv_path,
            limit,
            last,
        ) is Ok {
            count + 1
        } else {
            count
        }
    }
}

/// How many commands of `id` are asked for in the course of `requests`.
pub open spec fn commands(requests: Seq<Request>, id: Seq<char>) -> nat
    decreases requests.len(),
{
    if requests.len() == 0 {
        0
    } else {
        let count = commands(requests.drop_last(), id);
        if requests.last().credential.device_id == id && requests.last().update is Consume {
            count + 1
        } else {
            count
        }
    }
}

/// A command is refused for nothing but an exhausted budget.
pub open spec fn only_the_budget_refuses(outcome: Result<BudgetUpdateView, Seq<char>>) -> bool {
    outcome matches Err(message) ==> message == "velocity command budget exhausted"@
}

/// No command of `id` is refused for anything but an exhausted budget in the
/// course of `requests`.
pub open spec fn only_the_budget_refuses_all(
    files: FilesView,
    csv_path: Seq<char>,
    limit: u32,
    requests: Seq<Request>,
    id: Seq<char>,
) -> bool {
    forall|i: int|
        0 <= i < requests.len() && (#[trigger] requests[i]).credential.device_id == id
            && requests[i].update is Consume ==> only_the_budget_refuses(
            outcome_at(files, csv_path, limit, requests, i),
        )
}

/// The smaller of two numbers.
pub open spec fn smaller(a: int, b: int) -> int {
    if a <= b {
        a
    } else {
        b
    }
}

/// However calls of all teams follow one another, and whatever the files were
/// at first, no more commands of a team are accepted than its limit leaves
/// it, which is at most five, plus the refunds that succeed. Where none does,
/// the files count exactly what was accepted, and of `n` commands exactly the
/// smaller of `n` and what the limit leaves are accepted, unless one is
/// refused for something else than an exhausted budget.
#[verifier::rlimit(40)]
pub proof fn no_more_commands_than_the_limit(
    files: FilesView,
    csv_path: Seq<char>,
    budget: u32,
    requests: Seq<Request>,
    id: Seq<char>,
)
    requires
        all_callable(requests),
    ensures
        ({
            let limit = clamped_limit(budget);
            let after = files_after_calls(files, csv_path, limit, requests);
            let start = used_by(held(files, csv_path, limit), id, limit);
            let end = used_by(held(after, csv_path, limit), id, limit);
            let through = accepted(files, csv_path, limit, requests, id);
            let back = refunded(files, csv_path, limit, requests, id);
            &&& end <= limit <= 5
            &&& start + through <= end + back
            &&& back == 0 ==> start + through == end
            &&& rows_of(files, csv_path, limit) is Ok ==> rows_of(after, csv_path, limit) is Ok
            &&& rows_of(files, csv_path, limit) is Err ==> after == files && through == 0
            &&& back == 0 && rows_of(files, csv_path, limit) is Ok && only_the_budget_refuses_all(
                files,
                csv_path,
                limit,
                requests,
                id,
            ) ==> through == smaller(commands(requests, id) as int, limit - start)
        }),
    decreases requests.len(),
{
    let limit = clamped_limit(budget);
    if requests.len() > 0 {
        let front = requests.drop_last();
        let last = requests.last();
        assert(all_callable(front)) by {
            assert forall|i: int| 0 <= i < front.len() implies callable(#[trigger] front[i]) by {
                assert(front[i] == requests[i]);
            }
        }
        assert(callable(requests[requests.len() - 1]));
        no_more_commands_than_the_limit(files, csv_path, budget, front, id);
        let earlier = files_after_calls(files, csv_path, limit, front);
        let rows = held(earlier, csv_path, limit);
        calls_are_kept(earlier, csv_path, limit, last, id, last.credential);
        files_hold_readable_rows(earlier, csv_path, limit);
        one_request_counts_right(rows, limit, last, id);
        if only_the_budget_refuses_all(files, csv_path, limit, requests, id) {
            assert(only_the_budget_refuses_all(files, csv_path, limit, front, id)) by {
                assert forall|i: int|
                    0 <= i < front.len() && (#[trigger] front[i]).credential.device_id == id
                        && front[i].update is Consume implies only_the_budget_refuses(
                    outcome_at(files, csv_path, limit, front, i),
                ) by {
                    assert(front[i] == requests[i]);
                    assert(front.take(i) =~= requests.take(i));
                }
            }
            let at = requests.len() - 1;
            assert(requests.take(at) =~= front);
            assert(requests[at] == last);
            if last.credential.device_id == id && last.update is Consume {
                assert(only_the_budget_refuses(outcome_at(files, csv_path, limit, requests, at)));
                exhausted_means_exhausted(rows, limit, last);
            }
        }
    }
}

/// A command that is refused as exhausted meets a budget that is.
proof fn exhausted_means_exhausted(rows: Seq<RecordView>, limit: u32, request: Request)
    requires
        ordered(rows),
        request.update is Consume,
    ensures
        ({
            let outcome = rows_after(
                rows,
                limit,
                request.credential,
                request.update,
                request.now,
            );
            outcome is Err && only_the_budget_refuses(outcome) ==> used_by(
                rows,
                request.credential.device_id,
                limit,
            ) >= limit
        }),
{
    a_command_uses_one(
        rows,
        limit,
        request.credential,
        request.update->Consume_0,
        request.now,
    );
    reveal_strlit("velocity command budget exhausted");
    reveal_strlit("velocity budget version is exhausted");
    reveal_strlit("velocity budget updated_at is not an epoch-nanosecond version");
    assert("velocity command budget exhausted"@.len()
        != "velocity budget version is exhausted"@.len());
    assert("velocity command budget exhausted"@.len()
        != "velocity budget updated_at is not an epoch-nanosecond version"@.len());
}

/// As long as neither the clock nor the version that a team starts from comes
/// within the limit of the greatest version, nothing but an exhausted budget
/// refuses a command; and so, without refunds, of `n` commands of a team
/// exactly the smaller of `n` and what the limit leaves are accepted.
#[verifier::rlimit(40)]
pub proof fn the_smaller_number_is_accepted(
    files: FilesView,
    csv_path: Seq<char>,
    budget: u32,
    requests: Seq<Request>,
    id: Seq<char>,
    latest: nat,
)
    requires
        all_callable(requests),
        rows_of(files, csv_path, clamped_limit(budget)) is Ok,
        latest + clamped_limit(budget) <= u128::MAX,
        version_in(held(files, csv_path, clamped_limit(budget)), id) <= latest,
        forall|i: int| 0 <= i < requests.len() ==> (#[trigger] requests[i]).now <= latest,
        refunded(files, csv_path, clamped_limit(budget), requests, id) == 0,
    ensures
        ({
            let limit = clamped_limit(budget);
            let start = used_by(held(files, csv_path, limit), id, limit);
            &&& only_the_budget_refuses_all(files, csv_path, limit, requests, id)
            &&& accepted(files, csv_path, limit, requests, id) == smaller(
                commands(requests, id) as int,
                limit - start,
            )
        }),
{
    let limit = clamped_limit(budget);
    assert forall|i: int|
        0 <= i < requests.len() && (#[trigger] requests[i]).credential.device_id == id
            && requests[i].update is Consume implies only_the_budget_refuses(
        outcome_at(files, csv_path, limit, requests, i),
    ) by {
        refunds_only_add_up(files, csv_path, limit, requests, id, i);
        versions_stay_low(files, csv_path, limit, requests.take(i), id, latest);
        let earlier = files_after_calls(files, csv_path, limit, requests.take(i));
        let rows = held(earlier, csv_path, limit);
        files_hold_readable_rows(earlier, csv_path, limit);
        let request = requests[i];
        a_command_uses_one(rows, limit, request.credential, request.update->Consume_0, request.now);
        registered_at_rank(rows, id);
        rank_splits(rows, id);
        if registered(rows, id) {
            assert(readable(rows[rank(rows, id)], limit));
        }
        decimal_reads_back(request.now);
        if used_by(rows, id, limit) < limit {
            assert(version_after(
                starting_row(rows, id, limit, request.now).updated_at,
                request.now as int,
            ) is Ok);
        }
    }
    no_more_commands_than_the_limit(files, csv_path, budget, requests, id);
}

/// Refunds that succeed among the first calls succeed among all.
proof fn refunds_only_add_up(
    files: FilesView,
    csv_path: Seq<char>,
    limit: u32,
    requests: Seq<Request>,
    id: Seq<char>,
    upto: int,
)
    requires
        0 <= upto <= requests.len(),
    ensures
        refunded(files, csv_path, limit, requests.take(upto), id) <= refunded(
            files,
            csv_path,
            limit,
            requests,
            id,
        ),
    decreases requests.len(),
{
    if upto == requests.len() {
        assert(requests.take(upto) =~= requests);
    } else {
        let front = requests.drop_last();
        assert(front.take(upto) =~= requests.take(upto));
        refunds_only_add_up(files, csv_path, limit, front, id, upto);
    }
}

/// Without refunds the version of a team keeps within its count of the clock.
proof fn versions_stay_low(
    files: FilesView,
    csv_path: Seq<char>,
    limit: u32,
    requests: Seq<Request>,
    id: Seq<char>,
    latest: nat,
)
    requires
        all_callable(requests),
        rows_of(files, csv_path, limit) is Ok,
        version_in(held(files, csv_path, limit), id) <= latest,
        forall|i: int| 0 <= i < requests.len() ==> (#[trigger] requests[i]).now <= latest,
        refunded(files, csv_path, limit, requests, id) == 0,
    ensures
        ({
            let after = files_after_calls(files, csv_path, limit, requests);
            let rows = held(after, csv_path, limit);
            &&& rows_of(after, csv_path, limit) is Ok
            &&& version_in(rows, id) <= latest + used_by(rows, id, limit)
        }),
    decreases requests.len(),
{
    if requests.len() > 0 {
        let front = requests.drop_last();
        let last = requests.last();
        assert forall|i: int| 0 <= i < front.len() implies callable(#[trigger] front[i])
            && front[i].now <= latest by {
            assert(front[i] == requests[i]);
            assert(callable(requests[i]));
        }
        assert(callable(requests[requests.len() - 1]) && requests[requests.len() - 1].now <= latest);
        versions_stay_low(files, csv_path, limit, front, id, latest);
        let earlier = files_after_calls(files, csv_path, limit, front);
        let rows = held(earlier, csv_path, limit);
        files_hold_readable_rows(earlier, csv_path, limit);
        calls_are_kept(earlier, csv_path, limit, last, id, last.credential);
        one_request_counts_right(rows, limit, last, id);
        versions_grow(rows, limit, last, id);
    }
}

/// The number that a version text writes.
pub open spec fn version_of(state: StateView) -> Option<int> {
    unsigned(state.budget_version, u128::MAX as int)
}

/// In the course of calls the version of a team never falls, and what a call
/// reports is the version that the files then hold.
proof fn versions_hold(
    files: FilesView,
    csv_path: Seq<char>,
    limit: u32,
    requests: Seq<Request>,
    i: int,
    j: int,
    id: Seq<char>,
)
    requires
        all_callable(requests),
        0 <= i <= j <= requests.len(),
        rows_of(files_after_calls(files, csv_path, limit, requests.take(i)), csv_path, limit) is Ok,
    ensures
        ({
            let before = files_after_calls(files, csv_path, limit, requests.take(i));
            let after = files_after_calls(files, csv_path, limit, requests.take(j));
            &&& rows_of(after, csv_path, limit) is Ok
            &&& version_in(held(before, csv_path, limit), id) <= version_in(
                held(after, csv_path, limit),
                id,
            )
            &&& i < j && requests[j - 1].credential.device_id == id ==> (outcome_at(
                files,
                csv_path,
                limit,
                requests,
                j - 1,
            ) matches Ok(outcome) ==> version_of(outcome.state) == Some(
                version_in(held(after, csv_path, limit), id),
            ))
        }),
    decreases j,
{
    if i < j {
        versions_hold(files, csv_path, limit, requests, i, j - 1, id);
        let earlier = files_after_calls(files, csv_path, limit, requests.take(j - 1));
        let request = requests[j - 1];
        take_one_more(requests, j - 1);
        assert(callable(request));
        calls_are_kept(earlier, csv_path, limit, request, id, request.credential);
        files_hold_readable_rows(earlier, csv_path, limit);
        versions_grow(held(earlier, csv_path, limit), limit, request, id);
    }
}

/// Over any course of calls, whatever the clock does: what is reported of a
/// team later is no smaller a version than what was reported of it earlier,
/// and an accepted command reports a greater one, also past the 0 of a team
/// without a row. So does a refund, where it changes a row.
pub proof fn versions_advance(
    files: FilesView,
    csv_path: Seq<char>,
    limit: u32,
    requests: Seq<Request>,
    i: int,
    j: int,
)
    requires
        all_callable(requests),
        0 <= i < j < requests.len(),
        requests[i].credential.device_id == requests[j].credential.device_id,
        outcome_at(files, csv_path, limit, requests, i) is Ok,
        outcome_at(files, csv_path, limit, requests, j) is Ok,
    ensures
        ({
            let earlier = version_of(outcome_at(files, csv_path, limit, requests, i)->Ok_0.state);
            let later = version_of(outcome_at(files, csv_path, limit, requests, j)->Ok_0.state);
            &&& earlier is Some
            &&& later is Some
            &&& earlier->0 <= later->0
            &&& requests[j].update is Consume ==> earlier->0 < later->0
            &&& requests[j].update is Refund && outcome_at(
                files,
                csv_path,
                limit,
                requests,
                j,
            )->Ok_0.saved is Some ==> earlier->0 < later->0
        }),
{
    let id = requests[j].credential.device_id;
    versions_hold(files, csv_path, limit, requests, i, i + 1, id);
    versions_hold(files, csv_path, limit, requests, i + 1, j, id);
    versions_hold(files, csv_path, limit, requests, j, j + 1, id);
    let at_j = files_after_calls(files, csv_path, limit, requests.take(j));
    take_one_more(requests, j);
    assert(callable(requests[j]));
    calls_are_kept(at_j, csv_path, limit, requests[j], id, requests[j].credential);
    files_hold_readable_rows(at_j, csv_path, limit);
    versions_grow(held(at_j, csv_path, limit), limit, requests[j], id);
}

/// Whether the call with `requests[k]` leaves what is reported of `id` alone:
/// it is for another team, it reads, or it fails.
pub open spec fn leaves_alone(
    files: FilesView,
    csv_path: Seq<char>,
    limit: u32,
    requests: Seq<Request>,
    k: int,
    id: Seq<char>,
) -> bool {
    requests[k].credential.device_id != id || requests[k].update is Read || outcome_at(
        files,
        csv_path,
        limit,
        requests,
        k,
    ) is Err
}

proof fn reports_hold(
    files: FilesView,
    csv_path: Seq<char>,
    limit: u32,
    requests: Seq<Request>,
    i: int,
    j: int,
)
    requires
        all_callable(requests),
        0 <= i < j <= requests.len(),
        outcome_at(files, csv_path, limit, requests, i) is Ok,
        forall|k: int|
            i < k < j ==> #[trigger] leaves_alone(
                files,
                csv_path,
                limit,
                requests,
                k,
                requests[i].credential.device_id,
            ),
    ensures
        ({
            let after = files_after_calls(files, csv_path, limit, requests.take(j));
            &&& rows_of(after, csv_path, limit) is Ok
            &&& state_in(held(after, csv_path, limit), limit, requests[i].credential)
                == outcome_at(files, csv_path, limit, requests, i)->Ok_0.state
        }),
    decreases j,
{
    let credential = requests[i].credential;
    let earlier = files_after_calls(files, csv_path, limit, requests.take(j - 1));
    let request = requests[j - 1];
    if i < j - 1 {
        reports_hold(files, csv_path, limit, requests, i, j - 1);
        assert(leaves_alone(files, csv_path, limit, requests, j - 1, credential.device_id));
    }
    take_one_more(requests, j - 1);
    assert(callable(request));
    calls_are_kept(earlier, csv_path, limit, request, credential.device_id, credential);
    files_hold_readable_rows(earlier, csv_path, limit);
    reports_are_kept(held(earlier, csv_path, limit), limit, request, credential);
}

/// Reading the budget of a team reports exactly what the last call for it
/// reported, whatever the clock shows and whatever other teams have done
/// since; calls that fail and other reads in between change nothing.
pub proof fn a_read_reports_the_last_report(
    files: FilesView,
    csv_path: Seq<char>,
    limit: u32,
    requests: Seq<Request>,
    i: int,
    j: int,
)
    requires
        all_callable(requests),
        0 <= i < j < requests.len(),
        outcome_at(files, csv_path, limit, requests, i) is Ok,
        forall|k: int|
            i < k < j ==> #[trigger] leaves_alone(
                files,
                csv_path,
                limit,
                requests,
                k,
                requests[i].credential.device_id,
            ),
        requests[j].update is Read,
        requests[j].credential == requests[i].credential,
    ensures
        outcome_at(files, csv_path, limit, requests, j) matches Ok(outcome) && outcome.state
            == outcome_at(files, csv_path, limit, requests, i)->Ok_0.state,
{
    reports_hold(files, csv_path, limit, requests, i, j);
    let at_j = files_after_calls(files, csv_path, limit, requests.take(j));
    files_hold_readable_rows(at_j, csv_path, limit);
    reports_are_kept(held(at_j, csv_path, limit), limit, requests[j], requests[j].credential);
}

/// A refund after a command undoes it through the files: it reports the count
/// that was read before the command, and the three reports have growing
/// versions, whatever the clock shows. It fails only where the version cannot
/// grow any more.
pub proof fn a_refund_undoes_a_command_through_the_files(
    files: FilesView,
    csv_path: Seq<char>,
    limit: u32,
    credential: CredentialView,
    speed: Option<Seq<char>>,
    now: nat,
    then: nat,
    later: nat,
)
    requires
        safe_id(credential.device_id),
        speed matches Some(speed) ==> speed_text(speed),
        now <= u128::MAX && then <= u128::MAX && later <= u128::MAX,
    ensures
        ({
            let read = Request { credential, update: UpdateView::Read, now };
            let command = Request { credential, update: UpdateView::Consume(speed), now: then };
            let refund = Request { credential, update: UpdateView::Refund, now: later };
            let after_read = files_after_call(files, csv_path, limit, read);
            let after_command = files_after_call(after_read, csv_path, limit, command);
            let first = called(files, csv_path, limit, read);
            let second = called(after_read, csv_path, limit, command);
            let third = called(after_command, csv_path, limit, refund);
            &&& first is Ok && second is Ok && third is Ok ==> {
                let s0 = first->Ok_0.state;
                let s1 = second->Ok_0.state;
                let s2 = third->Ok_0.state;
                &&& s2.used == s0.used && s2.remaining == s0.remaining && s2.limit == s0.limit
                &&& version_of(s0) is Some && version_of(s1) is Some && version_of(s2) is Some
                &&& version_of(s0)->0 < version_of(s1)->0 < version_of(s2)->0
            }
            &&& second is Ok && third is Err ==> version_of(second->Ok_0.state) == Some(
                u128::MAX as int,
            )
        }),
{
    let id = credential.device_id;
    let read = Request { credential, update: UpdateView::Read, now };
    let command = Request { credential, update: UpdateView::Consume(speed), now: then };
    let refund = Request { credential, update: UpdateView::Refund, now: later };
    let after_read = files_after_call(files, csv_path, limit, read);
    let after_command = files_after_call(after_read, csv_path, limit, command);
    calls_are_kept(files, csv_path, limit, read, id, credential);
    calls_are_kept(after_read, csv_path, limit, command, id, credential);
    files_hold_readable_rows(files, csv_path, limit);
    files_hold_readable_rows(after_read, csv_path, limit);
    files_hold_readable_rows(after_command, csv_path, limit);
    let rows0 = held(files, csv_path, limit);
    let rows1 = held(after_read, csv_path, limit);
    let rows2 = held(after_command, csv_path, limit);
    one_request_counts_right(rows0, limit, read, id);
    one_request_counts_right(rows1, limit, command, id);
    one_request_counts_right(rows2, limit, refund, id);
    versions_grow(rows0, limit, read, id);
    versions_grow(rows1, limit, command, id);
    versions_grow(rows2, limit, refund, id);
    reports_are_kept(rows0, limit, read, credential);
    reports_are_kept(rows1, limit, command, credential);
    reports_are_kept(rows2, limit, refund, credential);
    count_is_reported(rows_kept(rows0, limit, read), limit, credential);
    count_is_reported(rows_kept(rows2, limit, refund), limit, credential);
    a_refund_fails_only_at_the_last_version(rows2, limit, credential, later);
    if called(after_read, csv_path, limit, command) is Ok {
        a_command_registers(rows1, limit, command);
    }
}

proof fn count_is_reported(rows: Seq<RecordView>, limit: u32, credential: CredentialView)
    ensures
        state_in(rows, limit, credential).used == used_by(rows, credential.device_id, limit),
{
}

/// A command that is accepted leaves its team with a row.
pub proof fn a_command_registers(rows: Seq<RecordView>, limit: u32, request: Request)
    requires
        ordered(rows),
        request.update is Consume,
        rows_after(rows, limit, request.credential, request.update, request.now) is Ok,
    ensures
        registered(rows_kept(rows, limit, request), request.credential.device_id),
{
    one_request_counts_right(rows, limit, request, request.credential.device_id);
}

} // verus!
