//! The authoritative CSV text of the budget rows.

use vstd::prelude::*;

use crate::credential::{safe_device_id, safe_id};
use crate::ledger::{
    ordered, put, record_views, registered, text_view, BudgetDatabase, DeviceRecord, RecordView,
};
use crate::number::{decimal, decimal_text, parse_u128, parse_u32, unsigned};
use crate::speed::{is_speed, speed_text};
use crate::text::{
    blank, chars_of, concat, is_blank, lines, lines_of, pieces, split, starts_with, text_between,
    text_of, views,
};
use crate::wire::{shorten_speed, shortest_speed};

verus! {

/// The first line of the CSV, with its line feed.
pub const CSV_HEADER: &'static str = "device_id,used,limit,created_at,updated_at,last_velocity_mps,last_applied_at\n";

/// `parts` with `separator` between neighbours.
pub open spec fn joined(parts: Seq<Seq<char>>, separator: char) -> Seq<char>
    decreases parts.len(),
{
    if parts.len() == 0 {
        Seq::empty()
    } else if parts.len() == 1 {
        parts[0]
    } else {
        joined(parts.drop_last(), separator).push(separator) + parts.last()
    }
}

/// An optional text, with the empty text for none.
pub open spec fn or_empty(text: Option<Seq<char>>) -> Seq<char> {
    match text {
        Some(text) => text,
        None => Seq::empty(),
    }
}

/// None for the empty text.
pub open spec fn non_empty(text: Seq<char>) -> Option<Seq<char>> {
    if text.len() == 0 {
        None
    } else {
        Some(text)
    }
}

/// The cells of a line that holds `row` as it is.
pub open spec fn cells_of(row: RecordView) -> Seq<Seq<char>> {
    seq![
        row.device_id,
        decimal(row.used as nat),
        decimal(row.limit as nat),
        row.created_at,
        row.updated_at,
        or_empty(row.last_velocity_mps),
        or_empty(row.last_applied_at),
    ]
}

/// The speed that is written for `text`: the shortest text of its number.
/// Text that writes no number is written as it is; the shortest text of a
/// number always writes one.
pub open spec fn shown_speed(text: Seq<char>) -> Seq<char> {
    if speed_text(text) && speed_text(shortest_speed(text)) {
        shortest_speed(text)
    } else {
        text
    }
}

/// `row` with its speed as it is written.
pub open spec fn shown(row: RecordView) -> RecordView {
    RecordView {
        last_velocity_mps: match row.last_velocity_mps {
            Some(speed) => Some(shown_speed(speed)),
            None => None,
        },
        ..row
    }
}

/// `rows` with their speeds as they are written.
pub open spec fn shown_rows(rows: Seq<RecordView>) -> Seq<RecordView> {
    rows.map_values(|row: RecordView| shown(row))
}

/// The lines of `rows`, each with its line feed.
pub open spec fn csv_lines(rows: Seq<RecordView>) -> Seq<char>
    decreases rows.len(),
{
    if rows.len() == 0 {
        Seq::empty()
    } else {
        csv_lines(rows.drop_last()) + joined(cells_of(rows.last()), ',').push('\n')
    }
}

/// The CSV text of `rows`.
pub open spec fn csv_text(rows: Seq<RecordView>) -> Seq<char> {
    CSV_HEADER@ + csv_lines(shown_rows(rows))
}

/// The row that the cells of a line stand for. The written limit is not looked
/// at: the row gets the limit in force, and a use count capped to it.
pub open spec fn row_in(cells: Seq<Seq<char>>, limit: u32) -> RecordView {
    let used = unsigned(cells[1], u32::MAX as int)->0;
    RecordView {
        device_id: cells[0],
        used: if used <= limit {
            used as u32
        } else {
            limit
        },
        limit,
        created_at: cells[3],
        updated_at: cells[4],
        last_velocity_mps: non_empty(cells[5]),
        last_applied_at: non_empty(cells[6]),
    }
}

/// What reading the line `line`, at row number `number`, makes of the rows
/// read so far. Blank lines are skipped.
pub open spec fn read_line(
    rows: Seq<RecordView>,
    line: Seq<char>,
    number: nat,
    limit: u32,
) -> Result<Seq<RecordView>, Seq<char>> {
    let cells = pieces(line, ',');
    if blank(line) {
        Ok(rows)
    } else if cells.len() != 7 || !safe_id(cells[0]) {
        Err("invalid velocity budget CSV row "@ + decimal(number))
    } else if unsigned(cells[1], u32::MAX as int) is None {
        Err("invalid used count in CSV row "@ + decimal(number))
    } else if cells[5].len() > 0 && !speed_text(cells[5]) {
        Err("invalid velocity in CSV row "@ + decimal(number))
    } else if unsigned(cells[4], u128::MAX as int) is None {
        Err("invalid updated_at version in CSV row "@ + decimal(number))
    } else if registered(rows, cells[0]) {
        Err("duplicate device id in velocity budget CSV row "@ + decimal(number))
    } else {
        Ok(put(rows, row_in(cells, limit)))
    }
}

/// What reading `lines`, in order, gives. The header is row number 1, so
/// the first of these lines is row number 2.
pub open spec fn read_lines(lines: Seq<Seq<char>>, limit: u32) -> Result<
    Seq<RecordView>,
    Seq<char>,
>
    decreases lines.len(),
{
    if lines.len() == 0 {
        Ok(Seq::empty())
    } else {
        match read_lines(lines.drop_last(), limit) {
            Ok(rows) => read_line(rows, lines.last(), lines.len() + 1, limit),
            Err(message) => Err(message),
        }
    }
}

/// What reading the CSV text `contents` gives.
pub open spec fn read_csv(contents: Seq<char>, limit: u32) -> Result<Seq<RecordView>, Seq<char>> {
    if CSV_HEADER@.is_prefix_of(contents) {
        read_lines(lines_of(contents.skip(CSV_HEADER@.len() as int)), limit)
    } else {
        Err("velocity budget CSV is empty or has an invalid header"@)
    }
}

/// The value of a loaded database or of the message why there is none.
pub open spec fn loaded_view(loaded: Result<BudgetDatabase, String>) -> Result<
    Seq<RecordView>,
    Seq<char>,
> {
    match loaded {
        Ok(database) => Ok(database@),
        Err(message) => Err(message@),
    }
}

/// `value`, or none where it is empty.
pub fn optional_string(value: &str) -> (text: Option<String>)
    ensures
        text_view(text) == non_empty(value@),
{
    if value.is_empty() {
        None
    } else {
        Some(value.to_owned())
    }
}

/// `message` followed by a row number.
fn at_row(message: &str, row: u128) -> (text: String)
    ensures
        text@ == message@ + decimal(row as nat),
{
    concat(message, decimal_text(row).as_str())
}

/// The speed in a CSV cell, none where the cell is empty.
pub fn parse_optional_speed(value: &str, row: u128) -> (speed: Result<Option<String>, String>)
    ensures
        match speed {
            Ok(speed) => text_view(speed) == non_empty(value@) && (value@.len() == 0 || speed_text(
                value@,
            )),
            Err(message) => value@.len() > 0 && !speed_text(value@) && message@
                == "invalid velocity in CSV row "@ + decimal(row as nat),
        },
{
    if value.is_empty() {
        return Ok(None);
    }
    if is_speed(value) {
        Ok(Some(value.to_owned()))
    } else {
        Err(at_row("invalid velocity in CSV row ", row))
    }
}

/// Accepts text that writes a version number.
pub fn validate_version(value: &str, row: u128) -> (valid: Result<(), String>)
    ensures
        match valid {
            Ok(_) => unsigned(value@, u128::MAX as int) is Some,
            Err(message) => unsigned(value@, u128::MAX as int) is None && message@
                == "invalid updated_at version in CSV row "@ + decimal(row as nat),
        },
{
    match parse_u128(value) {
        Some(_) => Ok(()),
        None => Err(at_row("invalid updated_at version in CSV row ", row)),
    }
}

/// Reads one line into the rows read so far.
fn parse_line(
    database: BudgetDatabase,
    line: &Vec<char>,
    row: u128,
    limit: u32,
) -> (loaded: Result<BudgetDatabase, String>)
    ensures
        loaded_view(loaded) == read_line(database@, line@, row as nat, limit),
{
    if is_blank(line) {
        return Ok(database);
    }
    let cells = split(line, ',');
    let ghost parts = pieces(line@, ',');
    assert(parts.len() == cells@.len());
    if cells.len() != 7 {
        return Err(at_row("invalid velocity budget CSV row ", row));
    }
    assert(forall|i: int| 0 <= i < 7 ==> #[trigger] parts[i] == cells@[i]@);
    let device_id = text_of(&cells[0]);
    if !safe_device_id(device_id.as_str()) {
        return Err(at_row("invalid velocity budget CSV row ", row));
    }
    let used: u32 = match parse_u32(text_of(&cells[1]).as_str()) {
        Some(used) => used,
        None => {
            return Err(at_row("invalid used count in CSV row ", row));
        },
    };
    let last_velocity_mps = match parse_optional_speed(text_of(&cells[5]).as_str(), row) {
        Ok(speed) => speed,
        Err(message) => {
            return Err(message);
        },
    };
    let updated_at = text_of(&cells[4]);
    match validate_version(updated_at.as_str(), row) {
        Ok(_) => {},
        Err(message) => {
            return Err(message);
        },
    }
    if database.contains(device_id.as_str()) {
        return Err(at_row("duplicate device id in velocity budget CSV row ", row));
    }
    Ok(
        database.with(
            DeviceRecord {
                device_id,
                used: if used <= limit {
                    used
                } else {
                    limit
                },
                limit,
                created_at: text_of(&cells[3]),
                updated_at,
                last_velocity_mps,
                last_applied_at: optional_string(text_of(&cells[6]).as_str()),
            },
        ),
    )
}

/// Reads the CSV text of the budget rows.
pub fn parse_csv(contents: &str, limit: u32) -> (loaded: Result<BudgetDatabase, String>)
    ensures
        loaded_view(loaded) == read_csv(contents@, limit),
{
    let chars = chars_of(contents);
    let header = chars_of(CSV_HEADER);
    if !starts_with(&chars, &header) {
        return Err("velocity budget CSV is empty or has an invalid header".to_owned());
    }
    let body = chars_of(text_between(&chars, header.len(), chars.len()).as_str());
    assert(body@ =~= contents@.skip(CSV_HEADER@.len() as int));
    let rows = lines(&body);
    let ghost all = lines_of(body@);
    let mut database = BudgetDatabase::default();
    for i in 0..rows.len()
        invariant
            all == views(rows@),
            all == lines_of(body@),
            body@ == contents@.skip(CSV_HEADER@.len() as int),
            CSV_HEADER@.is_prefix_of(contents@),
            read_lines(all.take(i as int), limit) == Ok::<Seq<RecordView>, Seq<char>>(database@),
    {
        assert(all.take(i + 1).drop_last() =~= all.take(i as int));
        assert(all[i as int] == rows@[i as int]@);
        let ghost earlier = database@;
        let number: u128 = i as u128 + 2;
        match parse_line(database, &rows[i], number, limit) {
            Ok(next) => {
                database = next;
            },
            Err(message) => {
                proof {
                    failure_lasts(all, i + 1, limit);
                }
                return Err(message);
            },
        }
    }
    assert(all.take(all.len() as int) =~= all);
    Ok(database)
}

/// The first line that cannot be read decides.
pub proof fn failure_lasts(lines: Seq<Seq<char>>, upto: int, limit: u32)
    requires
        0 <= upto <= lines.len(),
        read_lines(lines.take(upto), limit) is Err,
    ensures
        read_lines(lines, limit) == read_lines(lines.take(upto), limit),
    decreases lines.len() - upto,
{
    if upto < lines.len() {
        assert(lines.take(upto + 1).drop_last() =~= lines.take(upto));
        failure_lasts(lines, upto + 1, limit);
    } else {
        assert(lines.take(upto) =~= lines);
    }
}

/// Appends a comma and `cell`.
fn append_cell(line: &mut String, cell: &str)
    ensures
        final(line)@ == old(line)@.push(',') + cell@,
{
    line.push(',');
    line.append(cell);
}

/// The speed that is written for `speed`.
fn show_speed(speed: &Option<String>) -> (text: Option<String>)
    ensures
        text_view(text) == (match text_view(*speed) {
            Some(speed) => Some(shown_speed(speed)),
            None => None,
        }),
{
    match speed {
        Some(speed) => {
            if is_speed(speed.as_str()) {
                Some(shorten_speed(speed.as_str()))
            } else {
                Some(speed.clone())
            }
        },
        None => None,
    }
}

/// The line of `record`, written with `speed` in place of its own speed: its
/// cells, with commas between them.
pub fn record_line(record: &DeviceRecord, speed: &Option<String>) -> (line: String)
    ensures
        line@ == joined(
            cells_of((RecordView { last_velocity_mps: text_view(*speed), ..record@ })),
            ',',
        ),
{
    let mut line = record.device_id.clone();
    append_cell(&mut line, decimal_text(record.used as u128).as_str());
    append_cell(&mut line, decimal_text(record.limit as u128).as_str());
    append_cell(&mut line, record.created_at.as_str());
    append_cell(&mut line, record.updated_at.as_str());
    append_cell(
        &mut line,
        match speed {
            Some(speed) => speed.as_str(),
            None => "",
        },
    );
    append_cell(
        &mut line,
        match &record.last_applied_at {
            Some(applied) => applied.as_str(),
            None => "",
        },
    );
    proof {
        reveal_strlit("");
        let cells = cells_of(RecordView { last_velocity_mps: text_view(*speed), ..record@ });
        joined_step(cells, 7);
        joined_step(cells, 6);
        joined_step(cells, 5);
        joined_step(cells, 4);
        joined_step(cells, 3);
        joined_step(cells, 2);
        assert(cells.take(7) =~= cells);
        assert(joined(cells.take(1), ',') == cells[0]);
    }
    line
}

proof fn joined_step(parts: Seq<Seq<char>>, count: int)
    requires
        2 <= count <= parts.len(),
    ensures
        joined(parts.take(count), ',') == joined(parts.take(count - 1), ',').push(',') + parts[count
            - 1],
{
    assert(parts.take(count).drop_last() =~= parts.take(count - 1));
}

/// The CSV text of `database`: the header, then one line per device, in the
/// order of the device ids, with each speed in its shortest text.
pub fn serialize_csv(database: &BudgetDatabase) -> (text: String)
    ensures
        text@ == csv_text(database@),
        ordered(database@),
{
    let devices = database.devices();
    let ghost rows = shown_rows(database@);
    let mut text = CSV_HEADER.to_owned();
    assert(text@ =~= CSV_HEADER@ + csv_lines(rows.take(0)));
    for i in 0..devices.len()
        invariant
            rows == shown_rows(record_views(devices@)),
            text@ == CSV_HEADER@ + csv_lines(rows.take(i as int)),
    {
        assert(rows.take(i + 1).drop_last() =~= rows.take(i as int));
        assert(rows[i as int] == shown(devices@[i as int]@));
        let speed = show_speed(&devices[i].last_velocity_mps);
        text.append(record_line(&devices[i], &speed).as_str());
        text.push('\n');
        assert(text@ =~= CSV_HEADER@ + csv_lines(rows.take(i + 1)));
    }
    assert(rows.take(rows.len() as int) =~= rows);
    text
}

} // verus!
