//! What holds of the velocity budget whatever is asked of it.

use vstd::prelude::*;

use crate::credential::{safe_id, CredentialView};
use crate::csv::csv_text;
use crate::csv_laws::{
    all_readable, csv_reads_back, decimal_is_cell_text, loaded_rows_are_readable, plain, readable,
    settled_rows,
};
use crate::ledger::{
    find, ordered, put, put_keeps_order, put_then_find, rank, rank_splits, registered,
    registered_at_rank, RecordView,
};
use crate::number::{decimal, decimal_reads_back, unsigned, unsigned_part, value_is_nonnegative};
use crate::speed::speed_text;
use crate::velocity_budget::{
    capped, clock, fresh_row, full_allowance, outcome_of, row_after, rows_after, rows_of, state_of,
    version_after, BudgetUpdateView, CsvFileView, FilesView, StateView, UpdateView,
};

verus! {

/// How much of the budget of `id` is used up, counted against `limit`.
pub open spec fn used_by(rows: Seq<RecordView>, id: Seq<char>, limit: u32) -> u32 {
    match find(rows, id) {
        Some(row) => capped(row, limit).used,
        None => 0,
    }
}

/// The row that an update of `id` starts from.
pub open spec fn starting_row(rows: Seq<RecordView>, id: Seq<char>, limit: u32, now: nat) -> RecordView {
    match find(rows, id) {
        Some(row) => row,
        None => fresh_row(id, limit, now),
    }
}

/// An update of one team leaves the rows of all other teams as they are.
pub proof fn other_teams_keep_their_rows(
    rows: Seq<RecordView>,
    limit: u32,
    credential: CredentialView,
    update: UpdateView,
    now: nat,
    other: Seq<char>,
)
    requires
        ordered(rows),
        other != credential.device_id,
    ensures
        rows_after(rows, limit, credential, update, now) matches Ok(outcome)
            ==> (outcome.saved matches Some(after) ==> ordered(after) && find(after, other) == find(
            rows,
            other,
        )),
{
    let id = credential.device_id;
    if update is Consume || registered(rows, id) {
        let row = starting_row(rows, id, limit, now);
        starting_row_has_id(rows, id, limit, now);
        match row_after(row, limit, update, now) {
            Ok(after) => {
                put_then_find(rows, after, other);
            },
            Err(_) => {},
        }
    }
}

proof fn starting_row_has_id(rows: Seq<RecordView>, id: Seq<char>, limit: u32, now: nat)
    requires
        ordered(rows),
    ensures
        starting_row(rows, id, limit, now).device_id == id,
        capped(starting_row(rows, id, limit, now), limit).used == used_by(rows, id, limit),
{
    registered_at_rank(rows, id);
}

/// A command is accepted exactly while the budget lasts and its version can
/// still grow; an accepted command uses up one, a command beyond the limit is
/// refused as exhausted.
pub proof fn a_command_uses_one(
    rows: Seq<RecordView>,
    limit: u32,
    credential: CredentialView,
    speed: Option<Seq<char>>,
    now: nat,
)
    requires
        ordered(rows),
    ensures
        ({
            let id = credential.device_id;
            let used = used_by(rows, id, limit);
            let version = version_after(
                starting_row(rows, id, limit, now).updated_at,
                now as int,
            );
            let outcome = rows_after(rows, limit, credential, UpdateView::Consume(speed), now);
            &&& outcome is Ok <==> used < limit && version is Ok
            &&& used >= limit ==> outcome == Err::<BudgetUpdateView, Seq<char>>(
                "velocity command budget exhausted"@,
            )
            &&& outcome matches Ok(update) ==> {
                &&& update.state.used == used + 1
                &&& update.state.remaining == limit - used - 1
                &&& update.saved is Some
                &&& ordered(update.saved->0)
                &&& used_by(update.saved->0, id, limit) == used + 1
            }
        }),
{
    let id = credential.device_id;
    let row = starting_row(rows, id, limit, now);
    starting_row_has_id(rows, id, limit, now);
    match row_after(row, limit, UpdateView::Consume(speed), now) {
        Ok(after) => {
            put_then_find(rows, after, id);
        },
        Err(_) => {},
    }
}

/// A refund right after an accepted command restores the count, whatever
/// the clock shows; it fails only where the version cannot grow any more.
pub proof fn a_refund_undoes_a_command(
    rows: Seq<RecordView>,
    limit: u32,
    credential: CredentialView,
    speed: Option<Seq<char>>,
    now: nat,
    later: nat,
)
    requires
        ordered(rows),
        now <= u128::MAX,
        rows_after(rows, limit, credential, UpdateView::Consume(speed), now) is Ok,
    ensures
        ({
            let id = credential.device_id;
            let spent = rows_after(
                rows,
                limit,
                credential,
                UpdateView::Consume(speed),
                now,
            )->Ok_0;
            let refunded = rows_after(
                spent.saved->0,
                limit,
                credential,
                UpdateView::Refund,
                later,
            );
            &&& refunded matches Ok(update) ==> {
                &&& update.state.used == used_by(rows, id, limit)
                &&& update.saved is Some
                &&& used_by(update.saved->0, id, limit) == used_by(rows, id, limit)
            }
            &&& refunded is Err ==> spent.state.budget_version == decimal(u128::MAX as nat)
        }),
{
    let id = credential.device_id;
    let row = starting_row(rows, id, limit, now);
    starting_row_has_id(rows, id, limit, now);
    a_command_uses_one(rows, limit, credential, speed, now);
    let spent_row = row_after(row, limit, UpdateView::Consume(speed), now)->Ok_0;
    put_then_find(rows, spent_row, id);
    let after = put(rows, spent_row);
    starting_row_has_id(after, id, limit, later);
    version_grows(row.updated_at, now as int);
    decimal_reads_back(u128::MAX as nat);
    match row_after(spent_row, limit, UpdateView::Refund, later) {
        Ok(refunded) => {
            put_then_find(after, refunded, id);
        },
        Err(_) => {},
    }
}

/// The next version is a version, greater than the one before: the clock, or
/// the successor where that is greater.
pub proof fn version_grows(previous: Seq<char>, now: int)
    requires
        0 <= now <= u128::MAX,
    ensures
        version_after(previous, now) matches Ok(version) ==> {
            &&& unsigned(previous, u128::MAX as int) is Some
            &&& unsigned(version, u128::MAX as int) is Some
            &&& unsigned(version, u128::MAX as int)->0 > unsigned(previous, u128::MAX as int)->0
            &&& unsigned(version, u128::MAX as int)->0 == (if now > unsigned(
                previous,
                u128::MAX as int,
            )->0 {
                now
            } else {
                unsigned(previous, u128::MAX as int)->0 + 1
            })
            &&& version == decimal(unsigned(version, u128::MAX as int)->0 as nat)
        },
{
    match unsigned(previous, u128::MAX as int) {
        Some(number) => {
            value_is_nonnegative(unsigned_part(previous));
            decimal_reads_back(now as nat);
            decimal_reads_back((number + 1) as nat);
        },
        None => {},
    }
}

/// Only a command creates a row: reading a budget and giving a command back
/// leave the teams that have a row the same.
pub proof fn only_commands_create_rows(
    rows: Seq<RecordView>,
    limit: u32,
    credential: CredentialView,
    update: UpdateView,
    now: nat,
    id: Seq<char>,
)
    requires
        ordered(rows),
        !(update is Consume),
    ensures
        rows_after(rows, limit, credential, update, now) matches Ok(outcome)
            ==> (outcome.saved matches Some(after) ==> (registered(after, id) <==> registered(
            rows,
            id,
        ))),
        !registered(rows, credential.device_id) ==> rows_after(
            rows,
            limit,
            credential,
            update,
            now,
        ) == Ok::<BudgetUpdateView, Seq<char>>(
            BudgetUpdateView { state: full_allowance(credential, limit), saved: None },
        ),
{
    let team = credential.device_id;
    if registered(rows, team) {
        let row = starting_row(rows, team, limit, now);
        starting_row_has_id(rows, team, limit, now);
        match row_after(row, limit, update, now) {
            Ok(after) => {
                put_then_find(rows, after, id);
                assert(registered(rows, id) == (find(rows, id) is Some));
                assert(registered(put(rows, after), id) == (find(put(rows, after), id) is Some));
            },
            Err(_) => {},
        }
    }
}

/// Reading a budget never fails and never changes it: a team without a row
/// has the full allowance and gets no row, and rows that stand under the
/// limit in force are saved as they are.
pub proof fn reading_changes_nothing(
    rows: Seq<RecordView>,
    limit: u32,
    credential: CredentialView,
    now: nat,
)
    requires
        ordered(rows),
        forall|i: int|
            0 <= i < rows.len() ==> (#[trigger] rows[i]).limit == limit && rows[i].used <= limit,
    ensures
        ({
            let id = credential.device_id;
            let outcome = rows_after(rows, limit, credential, UpdateView::Read, now);
            &&& outcome is Ok
            &&& outcome->Ok_0.state.used == used_by(rows, id, limit)
            &&& outcome->Ok_0.state.remaining == limit - used_by(rows, id, limit)
            &&& registered(rows, id) ==> outcome->Ok_0.saved == Some(rows)
            &&& !registered(rows, id) ==> outcome->Ok_0.saved is None
        }),
{
    let id = credential.device_id;
    registered_at_rank(rows, id);
    if registered(rows, id) {
        let at = rank(rows, id);
        rank_splits(rows, id);
        assert(capped(rows[at], limit) == rows[at]);
        assert(rows.update(at, rows[at]) =~= rows);
    }
}

/// What is reported always adds up to the limit.
pub proof fn used_and_remaining_add_up(
    rows: Seq<RecordView>,
    limit: u32,
    credential: CredentialView,
    update: UpdateView,
    now: nat,
)
    ensures
        rows_after(rows, limit, credential, update, now) matches Ok(outcome)
            ==> outcome.state.used + outcome.state.remaining == limit && outcome.state.limit
            == limit && outcome.state.device_id == credential.device_id
            && outcome.state.credential_id == credential.credential_id,
{
}

/// One request to the budget of a team.
pub struct Request {
    pub credential: CredentialView,
    pub update: UpdateView,
    pub now: nat,
}

/// The rows that are kept after `request`.
pub open spec fn rows_kept(rows: Seq<RecordView>, limit: u32, request: Request) -> Seq<RecordView> {
    match rows_after(rows, limit, request.credential, request.update, request.now) {
        Ok(outcome) => match outcome.saved {
            Some(after) => after,
            None => rows,
        },
        Err(_) => rows,
    }
}

/// One request moves the count of a team by at most one: up with a command of
/// its own that gets through, down with a refund of its own that does, else
/// not at all.
pub proof fn one_request_counts_right(
    rows: Seq<RecordView>,
    limit: u32,
    request: Request,
    id: Seq<char>,
)
    requires
        ordered(rows),
    ensures
        ({
            let start = used_by(rows, id, limit);
            let end = used_by(rows_kept(rows, limit, request), id, limit);
            let own = request.credential.device_id == id && rows_after(
                rows,
                limit,
                request.credential,
                request.update,
                request.now,
            ) is Ok;
            &&& ordered(rows_kept(rows, limit, request))
            &&& end <= limit
            &&& own && request.update is Consume ==> end == start + 1
            &&& own && request.update is Refund ==> end == (if start > 0 {
                start - 1
            } else {
                0
            })
            &&& !own || request.update is Read ==> end == start
        }),
{
    let team = request.credential.device_id;
    let row = starting_row(rows, team, limit, request.now);
    starting_row_has_id(rows, team, limit, request.now);
    registered_at_rank(rows, id);
    match row_after(row, limit, request.update, request.now) {
        Ok(after) => {
            put_then_find(rows, after, id);
        },
        Err(_) => {},
    }
}

/// The version that is reported of `id`: that of its row, 0 without one.
pub open spec fn version_in(rows: Seq<RecordView>, id: Seq<char>) -> int {
    match find(rows, id) {
        Some(row) => unsigned(row.updated_at, u128::MAX as int)->0,
        None => 0,
    }
}

/// One request never lets the version of a team fall. What it reports is the
/// version that is kept; an accepted command reports a greater one than there
/// was, also past the 0 of a team without a row, and so does a refund to a
/// team with a row.
pub proof fn versions_grow(rows: Seq<RecordView>, limit: u32, request: Request, id: Seq<char>)
    requires
        ordered(rows),
        all_readable(rows, limit),
        request.now <= u128::MAX,
    ensures
        ({
            let team = request.credential.device_id;
            let after = rows_kept(rows, limit, request);
            &&& 0 <= version_in(rows, id) <= version_in(after, id)
            &&& team != id ==> version_in(after, id) == version_in(rows, id)
            &&& rows_after(
                rows,
                limit,
                request.credential,
                request.update,
                request.now,
            ) matches Ok(outcome) ==> {
                &&& unsigned(outcome.state.budget_version, u128::MAX as int) == Some(
                    version_in(after, team),
                )
                &&& request.update is Consume || request.update is Refund && registered(rows, team)
                    ==> {
                    let previous = if registered(rows, team) {
                        version_in(rows, team)
                    } else {
                        request.now as int
                    };
                    &&& version_in(rows, team) < version_in(after, team)
                    &&& version_in(after, team) == (if request.now > previous {
                        request.now as int
                    } else {
                        previous + 1
                    })
                }
                &&& request.update is Read ==> version_in(after, team) == version_in(rows, team)
            }
        }),
{
    let team = request.credential.device_id;
    let row = starting_row(rows, team, limit, request.now);
    starting_row_has_id(rows, team, limit, request.now);
    registered_at_rank(rows, team);
    registered_at_rank(rows, id);
    rank_splits(rows, team);
    rank_splits(rows, id);
    if registered(rows, id) {
        assert(readable(rows[rank(rows, id)], limit));
        value_is_nonnegative(unsigned_part(rows[rank(rows, id)].updated_at));
    }
    if registered(rows, team) {
        assert(readable(rows[rank(rows, team)], limit));
        value_is_nonnegative(unsigned_part(rows[rank(rows, team)].updated_at));
    }
    decimal_reads_back(request.now);
    version_grows(row.updated_at, request.now as int);
    reveal_strlit("0");
    assert("0"@ =~= decimal(0));
    decimal_reads_back(0);
    match row_after(row, limit, request.update, request.now) {
        Ok(after) => {
            put_then_find(rows, after, id);
        },
        Err(_) => {},
    }
}

/// A refund fails only where the version of the team's row cannot grow any
/// more.
pub proof fn a_refund_fails_only_at_the_last_version(
    rows: Seq<RecordView>,
    limit: u32,
    credential: CredentialView,
    now: nat,
)
    requires
        ordered(rows),
        all_readable(rows, limit),
    ensures
        rows_after(rows, limit, credential, UpdateView::Refund, now) is Err ==> version_in(
            rows,
            credential.device_id,
        ) == u128::MAX,
{
    let id = credential.device_id;
    registered_at_rank(rows, id);
    rank_splits(rows, id);
    if registered(rows, id) {
        assert(readable(rows[rank(rows, id)], limit));
    }
}

/// An update that saves rows leaves in the row of its team what it has no
/// business with. A command sets the time at which it was applied, and the
/// speed where it has one; a fresh row was created at that time. Reading and
/// giving back set neither.
pub proof fn an_update_keeps_the_rest_of_the_row(
    rows: Seq<RecordView>,
    limit: u32,
    credential: CredentialView,
    update: UpdateView,
    now: nat,
)
    requires
        ordered(rows),
    ensures
        ({
            let id = credential.device_id;
            let before = find(rows, id);
            rows_after(rows, limit, credential, update, now) matches Ok(outcome) ==> (
            outcome.saved matches Some(after) ==> {
                let row = find(after, id)->0;
                &&& find(after, id) is Some
                &&& row.device_id == id
                &&& row.limit == limit
                &&& row.used == outcome.state.used
                &&& row.updated_at == outcome.state.budget_version
                &&& before matches Some(old) ==> row.created_at == old.created_at
                &&& before is None ==> row.created_at == decimal(now)
                &&& update matches UpdateView::Consume(speed) ==> {
                    &&& row.last_applied_at == Some(decimal(now))
                    &&& speed is Some ==> row.last_velocity_mps == speed
                    &&& speed is None && before is None ==> row.last_velocity_mps is None
                    &&& speed is None && before is Some ==> row.last_velocity_mps
                        == before->0.last_velocity_mps
                }
                &&& !(update is Consume) ==> before is Some && row.last_applied_at
                    == before->0.last_applied_at && row.last_velocity_mps
                    == before->0.last_velocity_mps
                &&& update is Read ==> row.updated_at == before->0.updated_at
            })
        }),
{
    let id = credential.device_id;
    let row = starting_row(rows, id, limit, now);
    starting_row_has_id(rows, id, limit, now);
    registered_at_rank(rows, id);
    match row_after(row, limit, update, now) {
        Ok(after) => {
            put_then_find(rows, after, id);
        },
        Err(_) => {},
    }
}

/// What reading reports of `rows`.
pub open spec fn state_in(rows: Seq<RecordView>, limit: u32, credential: CredentialView) -> StateView {
    match find(rows, credential.device_id) {
        Some(row) => state_of(capped(row, limit), credential, limit),
        None => full_allowance(credential, limit),
    }
}

/// Reading reports what the rows hold, and what any request reports is what
/// reading reports of the rows that are kept after it. It changes what
/// reading reports only of its own team, and of that only as an accepted
/// command or a refund.
pub proof fn reports_are_kept(
    rows: Seq<RecordView>,
    limit: u32,
    request: Request,
    credential: CredentialView,
)
    requires
        ordered(rows),
    ensures
        ({
            let after = rows_kept(rows, limit, request);
            let outcome = rows_after(
                rows,
                limit,
                request.credential,
                request.update,
                request.now,
            );
            &&& request.update is Read ==> outcome is Ok
            &&& outcome is Ok ==> outcome->Ok_0.state == state_in(after, limit, request.credential)
            &&& request.update is Read || outcome is Err || request.credential.device_id
                != credential.device_id ==> state_in(after, limit, credential) == state_in(
                rows,
                limit,
                credential,
            )
        }),
{
    let team = request.credential.device_id;
    let row = starting_row(rows, team, limit, request.now);
    starting_row_has_id(rows, team, limit, request.now);
    match row_after(row, limit, request.update, request.now) {
        Ok(after) => {
            put_then_find(rows, after, credential.device_id);
        },
        Err(_) => {},
    }
}

/// The rows that files hold stand in order, and the CSV can hold them.
pub proof fn files_hold_readable_rows(files: FilesView, csv_path: Seq<char>, limit: u32)
    ensures
        rows_of(files, csv_path, limit) matches Ok(rows) ==> ordered(rows) && all_readable(
            rows,
            limit,
        ),
{
    match files.csv {
        CsvFileView::Contents(contents) => {
            if rows_of(files, csv_path, limit) is Ok {
                loaded_rows_are_readable(contents, limit);
            }
        },
        _ => {},
    }
}

/// A row that the CSV can hold is still one after an update.
proof fn row_stays_readable(row: RecordView, limit: u32, update: UpdateView, now: nat)
    requires
        readable(row, limit),
        now <= u128::MAX,
        update matches UpdateView::Consume(Some(speed)) ==> speed_text(speed),
    ensures
        row_after(row, limit, update, now) matches Ok(after) ==> readable(after, limit),
{
    version_grows(row.updated_at, now as int);
    decimal_is_cell_text(now);
}

/// The CSV can hold what an update saves, if it could hold what was there.
pub proof fn saved_rows_are_readable(
    rows: Seq<RecordView>,
    limit: u32,
    credential: CredentialView,
    update: UpdateView,
    now: nat,
)
    requires
        ordered(rows),
        all_readable(rows, limit),
        update is Consume ==> safe_id(credential.device_id),
        now <= u128::MAX,
        update matches UpdateView::Consume(Some(speed)) ==> speed_text(speed),
    ensures
        rows_after(rows, limit, credential, update, now) matches Ok(outcome)
            ==> (outcome.saved matches Some(after) ==> ordered(after) && all_readable(
            after,
            limit,
        )),
{
    let id = credential.device_id;
    let row = starting_row(rows, id, limit, now);
    if update is Consume || registered(rows, id) {
        starting_row_has_id(rows, id, limit, now);
        registered_at_rank(rows, id);
        rank_splits(rows, id);
        decimal_is_cell_text(now);
        decimal_reads_back(now);
        assert(readable(row, limit));
        row_stays_readable(row, limit, update, now);
        match row_after(row, limit, update, now) {
            Ok(new) => {
                put_keeps_order(rows, new);
                let after = put(rows, new);
                let at = rank(rows, id);
                assert forall|i: int| 0 <= i < after.len() implies readable(
                    #[trigger] after[i],
                    limit,
                ) by {
                    if i < at {
                        assert(after[i] == rows[i]);
                    } else if i > at {
                        if registered(rows, id) {
                            assert(after[i] == rows[i]);
                        } else {
                            assert(after[i] == rows[i - 1]);
                        }
                    }
                }
            },
            Err(_) => {},
        }
    }
}

/// A restart loses nothing: the rows that an update saves are the rows that
/// the CSV written from them gives back, with or without a mirror. All that a
/// restart changes is a speed that is not in its shortest text, and a carriage
/// return at the end of a last cell.
pub proof fn saved_rows_survive_a_restart(
    files: FilesView,
    csv_path: Seq<char>,
    limit: u32,
    credential: CredentialView,
    update: UpdateView,
    now: nat,
    mirror_exists: bool,
)
    requires
        update is Consume ==> safe_id(credential.device_id),
        now <= u128::MAX,
        update matches UpdateView::Consume(Some(speed)) ==> speed_text(speed),
    ensures
        outcome_of(files, csv_path, limit, credential, update, now) matches Ok(outcome) ==> (
        outcome.saved matches Some(after) ==> {
            &&& rows_of(
                FilesView { csv: CsvFileView::Contents(csv_text(after)), mirror_exists },
                csv_path,
                limit,
            ) == Ok::<Seq<RecordView>, Seq<char>>(settled_rows(after))
            &&& plain(after) ==> settled_rows(after) == after
        }),
{
    files_hold_readable_rows(files, csv_path, limit);
    match rows_of(files, csv_path, limit) {
        Ok(rows) => {
            saved_rows_are_readable(rows, limit, credential, update, now);
            match rows_after(rows, limit, credential, update, now) {
                Ok(outcome) => match outcome.saved {
                    Some(after) => {
                        csv_reads_back(after, limit);
                    },
                    None => {},
                },
                Err(_) => {},
            }
        },
        Err(_) => {},
    }
}

/// The clock counts nanoseconds from the epoch, and stands still before it.
pub proof fn the_clock_starts_at_the_epoch(nanoseconds: u128)
    ensures
        clock(Some(nanoseconds)) == nanoseconds,
        clock(None) == 0,
{
}

} // verus!
