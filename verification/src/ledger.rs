//! The budget rows of all teams.

use vstd::prelude::*;

use crate::text::{before, before_is_strict_order, copy_text, same_text, sorts_before};

verus! {

/// The budget row of one team.
#[derive(Debug, PartialEq, Eq)]
pub struct DeviceRecord {
    pub device_id: String,
    pub used: u32,
    pub limit: u32,
    pub created_at: String,
    pub updated_at: String,
    /// Text of the last commanded speed in metres per second.
    pub last_velocity_mps: Option<String>,
    pub last_applied_at: Option<String>,
}

/// The value of a [`DeviceRecord`].
pub struct RecordView {
    pub device_id: Seq<char>,
    pub used: u32,
    pub limit: u32,
    pub created_at: Seq<char>,
    pub updated_at: Seq<char>,
    pub last_velocity_mps: Option<Seq<char>>,
    pub last_applied_at: Option<Seq<char>>,
}

/// The characters of an optional text.
pub open spec fn text_view(text: Option<String>) -> Option<Seq<char>> {
    match text {
        Some(text) => Some(text@),
        None => None,
    }
}

impl View for DeviceRecord {
    type V = RecordView;

    open spec fn view(&self) -> RecordView {
        RecordView {
            device_id: self.device_id@,
            used: self.used,
            limit: self.limit,
            created_at: self.created_at@,
            updated_at: self.updated_at@,
            last_velocity_mps: text_view(self.last_velocity_mps),
            last_applied_at: text_view(self.last_applied_at),
        }
    }
}

impl Clone for DeviceRecord {
    fn clone(&self) -> (copy: Self)
        ensures
            copy@ == self@,
    {
        DeviceRecord {
            device_id: self.device_id.clone(),
            used: self.used,
            limit: self.limit,
            created_at: self.created_at.clone(),
            updated_at: self.updated_at.clone(),
            last_velocity_mps: copy_text(&self.last_velocity_mps),
            last_applied_at: copy_text(&self.last_applied_at),
        }
    }
}

/// The values of a list of records.
pub open spec fn record_views(records: Seq<DeviceRecord>) -> Seq<RecordView> {
    records.map_values(|record: DeviceRecord| record@)
}

/// The rows stand in the order of their device ids, and no id occurs twice.
pub open spec fn ordered(rows: Seq<RecordView>) -> bool {
    forall|i: int, j: int|
        0 <= i < j < rows.len() ==> before(
            #[trigger] rows[i].device_id,
            #[trigger] rows[j].device_id,
        )
}

/// How many rows lead `rows` whose ids sort ahead of `id`.
pub open spec fn rank(rows: Seq<RecordView>, id: Seq<char>) -> int
    decreases rows.len(),
{
    if rows.len() > 0 && before(rows[0].device_id, id) {
        1 + rank(rows.drop_first(), id)
    } else {
        0
    }
}

/// `id` has a row.
pub open spec fn registered(rows: Seq<RecordView>, id: Seq<char>) -> bool {
    exists|i: int| 0 <= i < rows.len() && #[trigger] rows[i].device_id == id
}

/// The row of `id`, where it has one.
pub open spec fn find(rows: Seq<RecordView>, id: Seq<char>) -> Option<RecordView> {
    if registered(rows, id) {
        Some(rows[rank(rows, id)])
    } else {
        None
    }
}

/// `rows` with `row` in place of the row of the same id, or added in order.
pub open spec fn put(rows: Seq<RecordView>, row: RecordView) -> Seq<RecordView> {
    let at = rank(rows, row.device_id);
    if registered(rows, row.device_id) {
        rows.update(at, row)
    } else {
        rows.insert(at, row)
    }
}

/// What stands before `at` sorts before `id`, and what stands there does not:
/// then `at` is the rank.
pub proof fn rank_is(rows: Seq<RecordView>, id: Seq<char>, at: int)
    requires
        0 <= at <= rows.len(),
        forall|i: int| 0 <= i < at ==> before(#[trigger] rows[i].device_id, id),
        at < rows.len() ==> !before(rows[at].device_id, id),
    ensures
        rank(rows, id) == at,
    decreases at,
{
    if at > 0 {
        assert(before(rows[0].device_id, id));
        let rest = rows.drop_first();
        assert forall|i: int| 0 <= i < at - 1 implies before(#[trigger] rest[i].device_id, id) by {
            assert(before(rows[i + 1].device_id, id));
        }
        rank_is(rest, id, at - 1);
    }
}

/// The rank parts the rows that sort before an id from the first that does not.
pub proof fn rank_splits(rows: Seq<RecordView>, id: Seq<char>)
    ensures
        0 <= rank(rows, id) <= rows.len(),
        forall|i: int| 0 <= i < rank(rows, id) ==> before(#[trigger] rows[i].device_id, id),
        rank(rows, id) < rows.len() ==> !before(rows[rank(rows, id)].device_id, id),
    decreases rows.len(),
{
    if rows.len() > 0 && before(rows[0].device_id, id) {
        let rest = rows.drop_first();
        rank_splits(rest, id);
        assert forall|i: int| 0 <= i < rank(rows, id) implies before(
            #[trigger] rows[i].device_id,
            id,
        ) by {
            if i > 0 {
                assert(rows[i] == rest[i - 1]);
                assert(before(rest[i - 1].device_id, id));
            }
        }
    }
}

/// In ordered rows a row with a given id stands at the rank of that id.
pub proof fn registered_at_rank(rows: Seq<RecordView>, id: Seq<char>)
    requires
        ordered(rows),
    ensures
        registered(rows, id) <==> rank(rows, id) < rows.len() && rows[rank(rows, id)].device_id
            == id,
{
    rank_splits(rows, id);
    let at = rank(rows, id);
    if registered(rows, id) {
        let i = choose|i: int| 0 <= i < rows.len() && #[trigger] rows[i].device_id == id;
        before_is_strict_order(id, id, id);
        if i > at {
            before_is_strict_order(rows[at].device_id, id, id);
        }
    }
}

/// Putting a row keeps the order.
pub proof fn put_keeps_order(rows: Seq<RecordView>, row: RecordView)
    requires
        ordered(rows),
    ensures
        ordered(put(rows, row)),
{
    let id = row.device_id;
    let at = rank(rows, id);
    rank_splits(rows, id);
    registered_at_rank(rows, id);
    let after = put(rows, row);
    assert forall|i: int, j: int| 0 <= i < j < after.len() implies before(
        #[trigger] after[i].device_id,
        #[trigger] after[j].device_id,
    ) by {
        if registered(rows, id) {
            assert(after[i].device_id == rows[i].device_id);
            assert(after[j].device_id == rows[j].device_id);
        } else {
            let old_i = if i < at { i } else { i - 1 };
            let old_j = if j < at { j } else { j - 1 };
            if i != at {
                assert(after[i] == rows[old_i]);
            }
            if j != at {
                assert(after[j] == rows[old_j]);
            }
            if i == at {
                // Everything from `at` on sorts behind `id`.
                before_is_strict_order(rows[at].device_id, id, id);
                assert(rows[at].device_id != id);
                assert(before(id, rows[at].device_id));
                if old_j > at {
                    before_is_strict_order(id, rows[at].device_id, rows[old_j].device_id);
                }
            } else if j == at {
                assert(before(rows[i].device_id, id));
            }
        }
    }
}

/// In ordered rows every row is found under its id.
pub proof fn every_row_is_found(rows: Seq<RecordView>, i: int)
    requires
        ordered(rows),
        0 <= i < rows.len(),
    ensures
        find(rows, rows[i].device_id) == Some(rows[i]),
{
    let id = rows[i].device_id;
    before_is_strict_order(id, id, id);
    rank_is(rows, id, i);
    assert(registered(rows, id));
}

/// What is put under an id is found under it, and nothing else changes.
pub proof fn put_then_find(rows: Seq<RecordView>, row: RecordView, id: Seq<char>)
    requires
        ordered(rows),
    ensures
        ordered(put(rows, row)),
        find(put(rows, row), row.device_id) == Some(row),
        id != row.device_id ==> find(put(rows, row), id) == find(rows, id),
{
    let after = put(rows, row);
    let at = rank(rows, row.device_id);
    put_keeps_order(rows, row);
    rank_splits(rows, row.device_id);
    registered_at_rank(rows, row.device_id);
    assert(after[at] == row);
    every_row_is_found(after, at);
    if id != row.device_id {
        let present = registered(rows, row.device_id);
        if registered(rows, id) {
            let k = choose|k: int| 0 <= k < rows.len() && #[trigger] rows[k].device_id == id;
            every_row_is_found(rows, k);
            let moved = if present || k < at { k } else { k + 1 };
            assert(after[moved] == rows[k]);
            every_row_is_found(after, moved);
        } else if registered(after, id) {
            let k = choose|k: int| 0 <= k < after.len() && #[trigger] after[k].device_id == id;
            let moved = if present || k < at { k } else { k - 1 };
            assert(k != at);
            assert(after[k] == rows[moved]);
            assert(rows[moved].device_id == id);
        }
    }
}

/// A list of budget rows, ordered by device id, one row per device.
#[derive(Debug, PartialEq, Eq)]
pub struct BudgetDatabase {
    version: u32,
    devices: Vec<DeviceRecord>,
}

impl View for BudgetDatabase {
    type V = Seq<RecordView>;

    closed spec fn view(&self) -> Seq<RecordView> {
        record_views(self.devices@)
    }
}

/// The format version of the budget database.
pub fn version_one() -> (version: u32)
    ensures
        version == 1,
{
    1
}

impl Default for BudgetDatabase {
    fn default() -> (database: Self)
        ensures
            database@ == Seq::<RecordView>::empty(),
    {
        let devices: Vec<DeviceRecord> = Vec::new();
        assert(record_views(devices@) =~= Seq::<RecordView>::empty());
        BudgetDatabase { version: version_one(), devices }
    }
}

impl Clone for BudgetDatabase {
    fn clone(&self) -> (copy: Self)
        ensures
            copy@ == self@,
    {
        proof {
            use_type_invariant(self);
        }
        let mut devices: Vec<DeviceRecord> = Vec::new();
        for i in 0..self.devices.len()
            invariant
                devices@.len() == i,
                forall|j: int| 0 <= j < i ==> (#[trigger] devices@[j])@ == self.devices@[j]@,
        {
            devices.push(self.devices[i].clone());
        }
        assert(record_views(devices@) =~= record_views(self.devices@));
        BudgetDatabase { version: self.version, devices }
    }
}

impl BudgetDatabase {
    #[verifier::type_invariant]
    spec fn well_formed(self) -> bool {
        self.version == 1 && ordered(record_views(self.devices@))
    }

    /// The format version, always 1.
    pub fn version(&self) -> (version: u32)
        ensures
            version == 1,
    {
        proof {
            use_type_invariant(self);
        }
        self.version
    }

    /// The rows, in the order of their ids, no id twice.
    pub fn devices(&self) -> (rows: &Vec<DeviceRecord>)
        ensures
            record_views(rows@) == self@,
            ordered(self@),
    {
        proof {
            use_type_invariant(self);
        }
        &self.devices
    }

    /// The rank of `id` among the rows, and whether its row stands there.
    fn locate(&self, id: &str) -> (place: (usize, bool))
        ensures
            place.0 as int == rank(self@, id@),
            place.1 == registered(self@, id@),
            place.0 <= self.devices@.len(),
            place.1 ==> place.0 < self.devices@.len(),
            ordered(self@),
    {
        proof {
            use_type_invariant(self);
        }
        let ghost rows = self@;
        let mut at: usize = 0;
        while at < self.devices.len() && sorts_before(self.devices[at].device_id.as_str(), id)
            invariant
                rows == record_views(self.devices@),
                at <= self.devices@.len(),
                forall|i: int| 0 <= i < at ==> before(#[trigger] rows[i].device_id, id@),
            decreases self.devices@.len() - at,
        {
            assert(rows[at as int] == self.devices@[at as int]@);
            at += 1;
        }
        proof {
            if at < self.devices@.len() {
                assert(rows[at as int] == self.devices@[at as int]@);
            }
            rank_is(rows, id@, at as int);
            registered_at_rank(rows, id@);
        }
        let present = at < self.devices.len() && same_text(
            self.devices[at].device_id.as_str(),
            id,
        );
        (at, present)
    }

    /// Whether `id` has a row.
    pub fn contains(&self, id: &str) -> (yes: bool)
        ensures
            yes == registered(self@, id@),
    {
        self.locate(id).1
    }

    /// A copy of the row of `id`, where it has one.
    pub fn get(&self, id: &str) -> (found: Option<DeviceRecord>)
        ensures
            match found {
                Some(record) => find(self@, id@) == Some(record@),
                None => find(self@, id@) is None,
            },
    {
        let (at, present) = self.locate(id);
        if present {
            Some(self.devices[at].clone())
        } else {
            None
        }
    }

    /// The database with `record` in place of the row of the same id, or
    /// added where there is none.
    pub fn with(self, record: DeviceRecord) -> (database: Self)
        ensures
            database@ == put(self@, record@),
    {
        let (at, present) = self.locate(record.device_id.as_str());
        let ghost rows = self@;
        let ghost row = record@;
        proof {
            put_keeps_order(rows, row);
        }
        let mut devices = self.devices;
        if present {
            devices.set(at, record);
            assert(record_views(devices@) =~= rows.update(at as int, row));
        } else {
            devices.insert(at, record);
            assert(record_views(devices@) =~= rows.insert(at as int, row));
        }
        BudgetDatabase { version: version_one(), devices }
    }
}

} // verus!
