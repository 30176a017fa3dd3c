//! Persistent, team-scoped velocity command accounting.
//!
//! The store decides; the caller reads the two files of the store before a
//! call and replaces them after one that hands back rows to save.

use vstd::prelude::*;

use crate::credential::{credential_id, id_of_name, safe_device_id, safe_id};
use crate::csv::{loaded_view, parse_csv, read_csv};
use crate::ledger::{find, put, registered, text_view, BudgetDatabase, DeviceRecord, RecordView};
use crate::number::{decimal, decimal_reads_back, decimal_text, parse_u128, unsigned};
use crate::speed::speed_text;
use crate::text::concat;

pub use crate::credential::{Credential, CredentialView};

verus! {

/// What a team has left.
#[derive(Debug, PartialEq, Eq)]
pub struct BudgetState {
    pub device_id: String,
    pub credential_id: String,
    pub limit: u32,
    pub used: u32,
    pub remaining: u32,
    pub budget_version: String,
}

/// The value of a [`BudgetState`].
pub struct StateView {
    pub device_id: Seq<char>,
    pub credential_id: Seq<char>,
    pub limit: u32,
    pub used: u32,
    pub remaining: u32,
    pub budget_version: Seq<char>,
}

impl View for BudgetState {
    type V = StateView;

    open spec fn view(&self) -> StateView {
        StateView {
            device_id: self.device_id@,
            credential_id: self.credential_id@,
            limit: self.limit,
            used: self.used,
            remaining: self.remaining,
            budget_version: self.budget_version@,
        }
    }
}

impl Clone for BudgetState {
    fn clone(&self) -> (copy: Self)
        ensures
            copy@ == self@,
    {
        BudgetState {
            device_id: self.device_id.clone(),
            credential_id: self.credential_id.clone(),
            limit: self.limit,
            used: self.used,
            remaining: self.remaining,
            budget_version: self.budget_version.clone(),
        }
    }
}

/// What is asked of a budget.
#[derive(Debug, PartialEq, Eq)]
pub enum Update {
    Read,
    /// One command, with the text of its speed where it has one.
    Consume(Option<String>),
    Refund,
}

/// The value of an [`Update`].
pub enum UpdateView {
    Read,
    Consume(Option<Seq<char>>),
    Refund,
}

impl View for Update {
    type V = UpdateView;

    open spec fn view(&self) -> UpdateView {
        match self {
            Update::Read => UpdateView::Read,
            Update::Consume(speed) => UpdateView::Consume(text_view(*speed)),
            Update::Refund => UpdateView::Refund,
        }
    }
}

/// What was found where the authoritative CSV is kept.
#[derive(Debug, PartialEq, Eq)]
pub enum CsvFile {
    Missing,
    /// The file is there but cannot be read; the message says why.
    Unreadable(String),
    Contents(String),
}

/// The state of the two files of a store. Of the JSON mirror only its
/// presence matters; its contents are never read.
#[derive(Debug, PartialEq, Eq)]
pub struct BudgetFiles {
    pub csv: CsvFile,
    pub mirror_exists: bool,
}

/// The value of a [`CsvFile`].
pub enum CsvFileView {
    Missing,
    Unreadable(Seq<char>),
    Contents(Seq<char>),
}

/// The value of [`BudgetFiles`].
pub struct FilesView {
    pub csv: CsvFileView,
    pub mirror_exists: bool,
}

impl View for BudgetFiles {
    type V = FilesView;

    open spec fn view(&self) -> FilesView {
        FilesView {
            csv: match self.csv {
                CsvFile::Missing => CsvFileView::Missing,
                CsvFile::Unreadable(message) => CsvFileView::Unreadable(message@),
                CsvFile::Contents(contents) => CsvFileView::Contents(contents@),
            },
            mirror_exists: self.mirror_exists,
        }
    }
}

/// The outcome of an update: the state to report, and the rows to save, if
/// there is anything to save.
#[derive(Debug, PartialEq, Eq)]
pub struct BudgetUpdate {
    pub state: BudgetState,
    pub saved: Option<BudgetDatabase>,
}

/// The value of a [`BudgetUpdate`].
pub struct BudgetUpdateView {
    pub state: StateView,
    pub saved: Option<Seq<RecordView>>,
}

impl View for BudgetUpdate {
    type V = BudgetUpdateView;

    open spec fn view(&self) -> BudgetUpdateView {
        BudgetUpdateView {
            state: self.state@,
            saved: match self.saved {
                Some(database) => Some(database@),
                None => None,
            },
        }
    }
}

/// The value of the outcome of an update or of the message why it failed.
pub open spec fn outcome_view(outcome: Result<BudgetUpdate, String>) -> Result<
    BudgetUpdateView,
    Seq<char>,
> {
    match outcome {
        Ok(update) => Ok(update@),
        Err(message) => Err(message@),
    }
}

/// The version that follows `previous` at time `now`: the time, or the
/// successor of `previous` where that is greater.
pub open spec fn version_after(previous: Seq<char>, now: int) -> Result<Seq<char>, Seq<char>> {
    match unsigned(previous, u128::MAX as int) {
        None => Err("velocity budget updated_at is not an epoch-nanosecond version"@),
        Some(number) => if number == u128::MAX {
            Err("velocity budget version is exhausted"@)
        } else if now > number {
            Ok(decimal(now as nat))
        } else {
            Ok(decimal((number + 1) as nat))
        },
    }
}

/// The row that a team gets with its first command.
pub open spec fn fresh_row(id: Seq<char>, limit: u32, now: nat) -> RecordView {
    RecordView {
        device_id: id,
        used: 0,
        limit,
        created_at: decimal(now),
        updated_at: decimal(now),
        last_velocity_mps: None,
        last_applied_at: None,
    }
}

/// `row` under the limit in force.
pub open spec fn capped(row: RecordView, limit: u32) -> RecordView {
    RecordView {
        used: if row.used <= limit {
            row.used
        } else {
            limit
        },
        limit,
        ..row
    }
}

/// What `update` makes of a team's row. A command is refused once the limit
/// is used up; a refund gives one command back, down to none used.
pub open spec fn row_after(row: RecordView, limit: u32, update: UpdateView, now: nat) -> Result<
    RecordView,
    Seq<char>,
> {
    let row = capped(row, limit);
    match update {
        UpdateView::Read => Ok(row),
        UpdateView::Consume(speed) => if row.used >= limit {
            Err("velocity command budget exhausted"@)
        } else {
            match version_after(row.updated_at, now as int) {
                Err(message) => Err(message),
                Ok(version) => Ok(
                    RecordView {
                        used: (row.used + 1) as u32,
                        updated_at: version,
                        last_velocity_mps: if speed is Some {
                            speed
                        } else {
                            row.last_velocity_mps
                        },
                        last_applied_at: Some(decimal(now)),
                        ..row
                    },
                ),
            }
        },
        UpdateView::Refund => match version_after(row.updated_at, now as int) {
            Err(message) => Err(message),
            Ok(version) => Ok(
                RecordView {
                    used: if row.used > 0 {
                        (row.used - 1) as u32
                    } else {
                        0
                    },
                    updated_at: version,
                    ..row
                },
            ),
        },
    }
}

/// The state that `row` stands for.
pub open spec fn state_of(row: RecordView, credential: CredentialView, limit: u32) -> StateView {
    StateView {
        device_id: credential.device_id,
        credential_id: credential.credential_id,
        limit,
        used: row.used,
        remaining: if row.used <= limit {
            (limit - row.used) as u32
        } else {
            0
        },
        budget_version: row.updated_at,
    }
}

/// The state of a team without a row.
pub open spec fn full_allowance(credential: CredentialView, limit: u32) -> StateView {
    StateView {
        device_id: credential.device_id,
        credential_id: credential.credential_id,
        limit,
        used: 0,
        remaining: limit,
        budget_version: "0"@,
    }
}

/// What `update` by `credential` makes of `rows`. Only a command gives a team
/// its row: reading the budget of a team without one, or giving a command back
/// to it, reports the full allowance and saves nothing. Anything else saves
/// the rows with the team's row brought up to date.
pub open spec fn rows_after(
    rows: Seq<RecordView>,
    limit: u32,
    credential: CredentialView,
    update: UpdateView,
    now: nat,
) -> Result<BudgetUpdateView, Seq<char>> {
    let id = credential.device_id;
    if !(update is Consume) && !registered(rows, id) {
        Ok(BudgetUpdateView { state: full_allowance(credential, limit), saved: None })
    } else {
        let row = match find(rows, id) {
            Some(row) => row,
            None => fresh_row(id, limit, now),
        };
        match row_after(row, limit, update, now) {
            Err(message) => Err(message),
            Ok(row) => Ok(
                BudgetUpdateView {
                    state: state_of(row, credential, limit),
                    saved: Some(put(rows, row)),
                },
            ),
        }
    }
}

/// The rows that the files hold. The CSV alone counts; without it there are
/// no rows, unless a mirror shows that a CSV has been lost.
pub open spec fn rows_of(files: FilesView, csv_path: Seq<char>, limit: u32) -> Result<
    Seq<RecordView>,
    Seq<char>,
> {
    match files.csv {
        CsvFileView::Contents(contents) => read_csv(contents, limit),
        CsvFileView::Unreadable(message) => Err(
            "read velocity budget CSV "@ + csv_path + ": "@ + message,
        ),
        CsvFileView::Missing => if files.mirror_exists {
            Err(
                "authoritative velocity budget CSV "@ + csv_path
                    + " is missing while JSON mirror exists"@,
            )
        } else {
            Ok(Seq::empty())
        },
    }
}

/// What `update` by `credential` comes to against the files as they stand.
pub open spec fn outcome_of(
    files: FilesView,
    csv_path: Seq<char>,
    limit: u32,
    credential: CredentialView,
    update: UpdateView,
    now: nat,
) -> Result<BudgetUpdateView, Seq<char>> {
    match rows_of(files, csv_path, limit) {
        Err(message) => Err(message),
        Ok(rows) => rows_after(rows, limit, credential, update, now),
    }
}

/// The time in nanoseconds since the epoch, 0 where the clock stands before it.
pub open spec fn clock(since_epoch: Option<u128>) -> nat {
    match since_epoch {
        Some(nanoseconds) => nanoseconds as nat,
        None => 0,
    }
}

/// The decimal text of the time that a clock showed, in nanoseconds since the
/// epoch; none stands for a clock before the epoch.
pub fn epoch_nanoseconds(since_epoch: Option<u128>) -> (text: String)
    ensures
        text@ == decimal(clock(since_epoch)),
{
    match since_epoch {
        Some(nanoseconds) => decimal_text(nanoseconds),
        None => decimal_text(0),
    }
}

/// The version that follows `previous` at time `now`.
pub fn next_version(previous: &str, now: &str) -> (version: Result<String, String>)
    requires
        unsigned(now@, u128::MAX as int) is Some,
    ensures
        match version {
            Ok(version) => version_after(previous@, unsigned(now@, u128::MAX as int)->0) == Ok::<
                Seq<char>,
                Seq<char>,
            >(version@),
            Err(message) => version_after(previous@, unsigned(now@, u128::MAX as int)->0) == Err::<
                Seq<char>,
                Seq<char>,
            >(message@),
        },
{
    let previous: u128 = match parse_u128(previous) {
        Some(number) => number,
        None => {
            return Err(
                "velocity budget updated_at is not an epoch-nanosecond version".to_owned(),
            );
        },
    };
    let now: u128 = match parse_u128(now) {
        Some(number) => number,
        None => 0,
    };
    match previous.checked_add(1) {
        Some(successor) => if now > successor {
            Ok(decimal_text(now))
        } else {
            Ok(decimal_text(successor))
        },
        None => Err("velocity budget version is exhausted".to_owned()),
    }
}

/// Accounting of velocity commands, kept in a CSV with a JSON mirror.
#[derive(Debug)]
pub struct VelocityBudgetStore {
    json_path: String,
    csv_path: String,
    limit: u32,
}

/// `limit` brought into the range from 1 to 5.
pub open spec fn clamped_limit(limit: u32) -> u32 {
    if limit < 1 {
        1
    } else if limit > 5 {
        5
    } else {
        limit
    }
}

/// `limit` brought into the range from 1 to 5.
pub fn clamp_limit(limit: u32) -> (clamped: u32)
    ensures
        clamped == clamped_limit(limit),
{
    if limit < 1 {
        1
    } else if limit > 5 {
        5
    } else {
        limit
    }
}

impl VelocityBudgetStore {
    #[verifier::type_invariant]
    spec fn limit_in_range(self) -> bool {
        1 <= self.limit <= 5
    }

    /// The commands that each team may issue.
    pub closed spec fn limit(self) -> u32 {
        self.limit
    }

    /// Where the CSV is kept.
    pub closed spec fn csv_path(self) -> Seq<char> {
        self.csv_path@
    }

    /// Where the JSON mirror is kept.
    pub closed spec fn json_path(self) -> Seq<char> {
        self.json_path@
    }

    /// A store with its limit brought into the range from 1 to 5.
    pub fn new(json_path: String, csv_path: String, limit: u32) -> (store: Self)
        ensures
            store.limit() == clamped_limit(limit),
            store.csv_path() == csv_path@,
            store.json_path() == json_path@,
    {
        VelocityBudgetStore { json_path, csv_path, limit: clamp_limit(limit) }
    }

    /// Where the two files of the store are kept: the CSV and its mirror.
    pub fn paths(&self) -> (paths: (String, String))
        ensures
            paths.0@ == self.csv_path(),
            paths.1@ == self.json_path(),
    {
        (self.csv_path.clone(), self.json_path.clone())
    }

    /// A team name is a self-asserted identity. Any syntactically valid name
    /// resolves to its own budget row; every device that sends the same name
    /// shares that team's budget.
    pub fn resolve(&self, team_name: &str) -> (resolved: Result<Credential, String>)
        ensures
            match resolved {
                Ok(credential) => safe_id(team_name@) && credential@ == (CredentialView {
                    device_id: team_name@,
                    credential_id: id_of_name(team_name@),
                }),
                Err(message) => !safe_id(team_name@) && message@
                    == "team name must be 1-128 characters of letters, numbers, dot, underscore, colon, or hyphen"@,
            },
    {
        if !safe_device_id(team_name) {
            return Err(
                "team name must be 1-128 characters of letters, numbers, dot, underscore, colon, or hyphen".to_owned(),
            );
        }
        Ok(
            Credential {
                device_id: team_name.to_owned(),
                credential_id: credential_id(team_name),
            },
        )
    }

    /// The state of a team's budget.
    pub fn state(
        &self,
        files: &BudgetFiles,
        credential: &Credential,
        since_epoch: Option<u128>,
    ) -> (outcome: Result<BudgetUpdate, String>)
        ensures
            outcome_view(outcome) == self.outcome(
                files@,
                credential@,
                UpdateView::Read,
                since_epoch,
            ),
            1 <= self.limit() <= 5,
    {
        self.update(files, credential, Update::Read, since_epoch)
    }

    /// Takes one command out of a team's budget.
    pub fn consume(
        &self,
        files: &BudgetFiles,
        credential: &Credential,
        velocity_mps: Option<String>,
        since_epoch: Option<u128>,
    ) -> (outcome: Result<BudgetUpdate, String>)
        requires
            velocity_mps matches Some(speed) ==> speed_text(speed@),
        ensures
            outcome_view(outcome) == self.outcome(
                files@,
                credential@,
                UpdateView::Consume(text_view(velocity_mps)),
                since_epoch,
            ),
            1 <= self.limit() <= 5,
    {
        self.update(files, credential, Update::Consume(velocity_mps), since_epoch)
    }

    /// Gives one command back to a team's budget.
    pub fn refund(
        &self,
        files: &BudgetFiles,
        credential: &Credential,
        since_epoch: Option<u128>,
    ) -> (outcome: Result<BudgetUpdate, String>)
        ensures
            outcome_view(outcome) == self.outcome(
                files@,
                credential@,
                UpdateView::Refund,
                since_epoch,
            ),
            1 <= self.limit() <= 5,
    {
        self.update(files, credential, Update::Refund, since_epoch)
    }

    /// What an update comes to.
    pub open spec fn outcome(
        self,
        files: FilesView,
        credential: CredentialView,
        update: UpdateView,
        since_epoch: Option<u128>,
    ) -> Result<BudgetUpdateView, Seq<char>> {
        outcome_of(
            files,
            self.csv_path(),
            self.limit(),
            credential,
            update,
            clock(since_epoch),
        )
    }

    /// Loads the rows, applies `update` for `credential` and says what to
    /// report and what to save.
    pub fn update(
        &self,
        files: &BudgetFiles,
        credential: &Credential,
        update: Update,
        since_epoch: Option<u128>,
    ) -> (outcome: Result<BudgetUpdate, String>)
        requires
            update matches Update::Consume(Some(speed)) ==> speed_text(speed@),
        ensures
            outcome_view(outcome) == self.outcome(files@, credential@, update@, since_epoch),
            1 <= self.limit() <= 5,
    {
        proof {
            use_type_invariant(self);
        }
        let database = match self.load(files) {
            Ok(database) => database,
            Err(message) => {
                return Err(message);
            },
        };
        let now = epoch_nanoseconds(since_epoch);
        proof {
            decimal_reads_back(clock(since_epoch));
        }
        let mut record = match database.get(credential.device_id.as_str()) {
            Some(record) => record,
            None => {
                match update {
                    Update::Read | Update::Refund => {
                        return Ok(
                            BudgetUpdate {
                                state: BudgetState {
                                    device_id: credential.device_id.clone(),
                                    credential_id: credential.credential_id.clone(),
                                    limit: self.limit,
                                    used: 0,
                                    remaining: self.limit,
                                    budget_version: "0".to_owned(),
                                },
                                saved: None,
                            },
                        );
                    },
                    Update::Consume(_) => {},
                }
                DeviceRecord {
                    device_id: credential.device_id.clone(),
                    used: 0,
                    limit: self.limit,
                    created_at: now.clone(),
                    updated_at: now.clone(),
                    last_velocity_mps: None,
                    last_applied_at: None,
                }
            },
        };
        record.limit = self.limit;
        if record.used > self.limit {
            record.used = self.limit;
        }
        match update {
            Update::Read => {},
            Update::Consume(velocity_mps) => {
                if record.used >= self.limit {
                    return Err("velocity command budget exhausted".to_owned());
                }
                record.used = record.used + 1;
                match next_version(record.updated_at.as_str(), now.as_str()) {
                    Ok(version) => {
                        record.updated_at = version;
                    },
                    Err(message) => {
                        return Err(message);
                    },
                }
                if let Some(speed) = velocity_mps {
                    record.last_velocity_mps = Some(speed);
                }
                record.last_applied_at = Some(now);
            },
            Update::Refund => {
                record.used = record.used.saturating_sub(1);
                match next_version(record.updated_at.as_str(), now.as_str()) {
                    Ok(version) => {
                        record.updated_at = version;
                    },
                    Err(message) => {
                        return Err(message);
                    },
                }
            },
        }
        let state = BudgetState {
            device_id: credential.device_id.clone(),
            credential_id: credential.credential_id.clone(),
            limit: self.limit,
            used: record.used,
            remaining: self.limit.saturating_sub(record.used),
            budget_version: record.updated_at.clone(),
        };
        Ok(BudgetUpdate { state, saved: Some(database.with(record)) })
    }

    /// The rows that the files hold.
    pub fn load(&self, files: &BudgetFiles) -> (loaded: Result<BudgetDatabase, String>)
        ensures
            loaded_view(loaded) == rows_of(files@, self.csv_path(), self.limit()),
    {
        match &files.csv {
            CsvFile::Contents(contents) => self.load_csv(contents.as_str()),
            CsvFile::Unreadable(error) => {
                let mut message = concat("read velocity budget CSV ", self.csv_path.as_str());
                message.append(": ");
                message.append(error.as_str());
                Err(message)
            },
            CsvFile::Missing => {
                if files.mirror_exists {
                    let mut message = concat(
                        "authoritative velocity budget CSV ",
                        self.csv_path.as_str(),
                    );
                    message.append(" is missing while JSON mirror exists");
                    return Err(message);
                }
                Ok(BudgetDatabase::default())
            },
        }
    }

    /// The rows in the text of the CSV, under the limit of this store.
    pub fn load_csv(&self, contents: &str) -> (loaded: Result<BudgetDatabase, String>)
        ensures
            loaded_view(loaded) == read_csv(contents@, self.limit()),
    {
        parse_csv(contents, self.limit)
    }
}

/// The name of the file that a budget file is written to before it takes its
/// place.
pub open spec fn temporary_name_of(file_name: Option<Seq<char>>, process: u32) -> Seq<char> {
    "."@ + (match file_name {
        Some(file_name) => file_name,
        None => "velocity-budget"@,
    }) + "."@ + decimal(process as nat) + ".tmp"@
}

/// The name of the file that a budget file is written to before it takes its
/// place.
pub fn temporary_file_name(file_name: &Option<String>, process: u32) -> (name: String)
    ensures
        name@ == temporary_name_of(text_view(*file_name), process),
{
    let mut name = match file_name {
        Some(file_name) => concat(".", file_name.as_str()),
        None => concat(".", "velocity-budget"),
    };
    name.append(".");
    name.append(decimal_text(process as u128).as_str());
    name.append(".tmp");
    name
}

} // verus!
