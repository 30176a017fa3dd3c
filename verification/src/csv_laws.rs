//! What the CSV keeps of the rows that are written to it.

use vstd::prelude::*;

use crate::credential::{safe_char, safe_id, CredentialView};
use crate::csv::{
    cells_of, csv_lines, csv_text, failure_lasts, joined, non_empty, or_empty, read_csv, read_line,
    read_lines, row_in, shown, shown_rows, shown_speed, CSV_HEADER,
};
use crate::ledger::{
    find, ordered, put, put_keeps_order, put_then_find, rank, rank_is, rank_splits, registered,
    registered_at_rank, RecordView,
};
use crate::number::{
    decimal, decimal_reads_back, digit, unsigned, unsigned_part, value_is_nonnegative,
};
use crate::speed::{speed_char, speed_has_speed_chars, speed_text};
use crate::text::{
    before, before_is_strict_order, blank, blank_char, lines_of, pieces, pieces_never_empty,
    without_return,
};
use crate::velocity_budget::{
    full_allowance, rows_after, rows_of, BudgetUpdateView, CsvFileView, FilesView, UpdateView,
};

verus! {

/// `c` does not occur in `s`.
pub open spec fn free_of(s: Seq<char>, c: char) -> bool {
    forall|i: int| 0 <= i < s.len() ==> #[trigger] s[i] != c
}

/// `s` can stand in a CSV cell.
pub open spec fn cell_text(s: Seq<char>) -> bool {
    free_of(s, ',') && free_of(s, '\n')
}

/// The CSV can hold `row` under `limit`.
pub open spec fn readable(row: RecordView, limit: u32) -> bool {
    &&& safe_id(row.device_id)
    &&& row.limit == limit
    &&& row.used <= limit
    &&& cell_text(row.created_at)
    &&& unsigned(row.updated_at, u128::MAX as int) is Some
    &&& row.last_velocity_mps matches Some(speed) ==> speed_text(speed)
    &&& row.last_applied_at matches Some(applied) ==> cell_text(applied) && applied.len() > 0
}

/// The CSV can hold every row.
pub open spec fn all_readable(rows: Seq<RecordView>, limit: u32) -> bool {
    forall|i: int| 0 <= i < rows.len() ==> readable(#[trigger] rows[i], limit)
}

/// `row` as it is read from a line that holds it as it is: a carriage return
/// at the end of its last cell is taken for a part of the line ending.
pub open spec fn ended(row: RecordView) -> RecordView {
    RecordView {
        last_applied_at: match row.last_applied_at {
            Some(applied) => non_empty(without_return(applied)),
            None => None,
        },
        ..row
    }
}

/// `row` as it is read again once it has been written: its speed is in its
/// shortest text, and a carriage return at the end of its last cell is gone.
pub open spec fn settled(row: RecordView) -> RecordView {
    ended(shown(row))
}

/// `rows` as they are read again once they have been written.
pub open spec fn settled_rows(rows: Seq<RecordView>) -> Seq<RecordView> {
    rows.map_values(|row: RecordView| settled(row))
}

/// Every speed is in its shortest text, and no last cell ends in a carriage
/// return.
pub open spec fn plain(rows: Seq<RecordView>) -> bool {
    forall|i: int|
        0 <= i < rows.len() ==> {
            &&& (#[trigger] rows[i]).last_velocity_mps matches Some(speed) ==> shown_speed(speed)
                == speed
            &&& rows[i].last_applied_at matches Some(applied) ==> applied.len() > 0
                && applied.last() != '\r'
        }
}

/// Text free of the separator is one piece.
proof fn plain_text_is_one_piece(s: Seq<char>, separator: char)
    requires
        free_of(s, separator),
    ensures
        pieces(s, separator) == seq![s],
    decreases s.len(),
{
    if s.len() > 0 {
        let front = s.drop_last();
        assert(free_of(front, separator)) by {
            assert forall|i: int| 0 <= i < front.len() implies #[trigger] front[i] != separator by {
                assert(front[i] == s[i]);
            }
        }
        plain_text_is_one_piece(front, separator);
        assert(s[s.len() - 1] != separator);
        assert(seq![front].drop_last() =~= Seq::<Seq<char>>::empty());
        assert(front.push(s.last()) =~= s);
        assert(pieces(s, separator) =~= seq![s]);
    } else {
        assert(s =~= Seq::<char>::empty());
    }
}

/// Plain text behind `a` lengthens its last piece.
proof fn plain_text_extends_last_piece(a: Seq<char>, b: Seq<char>, separator: char)
    requires
        free_of(b, separator),
    ensures
        pieces(a + b, separator) == pieces(a, separator).drop_last().push(
            pieces(a, separator).last() + b,
        ),
    decreases b.len(),
{
    let of_a = pieces(a, separator);
    pieces_never_empty(a, separator);
    if b.len() == 0 {
        assert(a + b =~= a);
        assert(of_a.last() + b =~= of_a.last());
        assert(of_a.drop_last().push(of_a.last()) =~= of_a);
    } else {
        let front = b.drop_last();
        assert forall|i: int| 0 <= i < front.len() implies #[trigger] front[i] != separator by {
            assert(front[i] == b[i]);
        }
        plain_text_extends_last_piece(a, front, separator);
        assert((a + b).drop_last() =~= a + front);
        assert(b[b.len() - 1] != separator);
        let so_far = of_a.drop_last().push(of_a.last() + front);
        assert(so_far.drop_last() =~= of_a.drop_last());
        assert((of_a.last() + front).push(b.last()) =~= of_a.last() + b);
    }
}

/// Splitting what was joined gives the parts back.
pub proof fn joined_parts_split(parts: Seq<Seq<char>>, separator: char)
    requires
        parts.len() > 0,
        forall|i: int| 0 <= i < parts.len() ==> free_of(#[trigger] parts[i], separator),
    ensures
        pieces(joined(parts, separator), separator) == parts,
    decreases parts.len(),
{
    if parts.len() == 1 {
        plain_text_is_one_piece(parts[0], separator);
        assert(parts =~= seq![parts[0]]);
    } else {
        let front = parts.drop_last();
        assert forall|i: int| 0 <= i < front.len() implies free_of(
            #[trigger] front[i],
            separator,
        ) by {
            assert(front[i] == parts[i]);
        }
        joined_parts_split(front, separator);
        let head = joined(front, separator).push(separator);
        assert(head.drop_last() =~= joined(front, separator));
        assert(pieces(head, separator) == front.push(Seq::<char>::empty()));
        assert(free_of(parts[parts.len() - 1], separator));
        plain_text_extends_last_piece(head, parts.last(), separator);
        assert(front.push(Seq::<char>::empty()).drop_last() =~= front);
        assert(Seq::<char>::empty() + parts.last() =~= parts.last());
        assert(front.push(parts.last()) =~= parts);
    }
}

/// Joining what was split gives the text back.
pub proof fn split_parts_join(s: Seq<char>, separator: char)
    ensures
        joined(pieces(s, separator), separator) == s,
    decreases s.len(),
{
    let parts = pieces(s, separator);
    if s.len() == 0 {
        assert(s =~= Seq::<char>::empty());
    } else {
        let front = s.drop_last();
        let earlier = pieces(front, separator);
        split_parts_join(front, separator);
        pieces_never_empty(front, separator);
        if s.last() == separator {
            assert(parts.drop_last() =~= earlier);
            assert(joined(parts, separator) =~= s);
        } else {
            assert(parts.drop_last() =~= earlier.drop_last());
            assert(parts.last() == earlier.last().push(s.last()));
            if earlier.len() == 1 {
                assert(joined(earlier, separator) == earlier[0]);
                assert(joined(parts, separator) == parts[0]);
            } else {
                let head = joined(earlier.drop_last(), separator).push(separator);
                assert(joined(earlier, separator) == head + earlier.last());
                assert(joined(parts, separator) == head + parts.last());
            }
            assert(joined(parts, separator) =~= front.push(s.last()));
            assert(front.push(s.last()) =~= s);
        }
    }
}

/// No piece holds the separator; and pieces hold nothing that the text does
/// not hold.
proof fn pieces_are_free(s: Seq<char>, separator: char, other: char)
    ensures
        forall|k: int|
            0 <= k < pieces(s, separator).len() ==> free_of(
                #[trigger] pieces(s, separator)[k],
                separator,
            ),
        free_of(s, other) ==> forall|k: int|
            0 <= k < pieces(s, separator).len() ==> free_of(
                #[trigger] pieces(s, separator)[k],
                other,
            ),
    decreases s.len(),
{
    if s.len() > 0 {
        let front = s.drop_last();
        pieces_are_free(front, separator, other);
        pieces_never_empty(front, separator);
        if free_of(s, other) {
            assert(free_of(front, other)) by {
                assert forall|i: int| 0 <= i < front.len() implies #[trigger] front[i] != other by {
                    assert(front[i] == s[i]);
                }
            }
            assert(s[s.len() - 1] != other);
        }
        let earlier = pieces(front, separator);
        let all = pieces(s, separator);
        assert forall|k: int| 0 <= k < all.len() implies free_of(#[trigger] all[k], separator) && (
        free_of(s, other) ==> free_of(all[k], other)) by {
            if k < earlier.len() {
                assert(free_of(earlier[k], separator));
                if free_of(s, other) {
                    assert(free_of(earlier[k], other));
                }
            }
        }
    }
}

/// The text of a number holds neither commas nor line feeds.
proof fn unsigned_is_cell_text(s: Seq<char>)
    requires
        unsigned(s, u128::MAX as int) is Some,
    ensures
        cell_text(s),
{
    let body = unsigned_part(s);
    assert forall|i: int| 0 <= i < s.len() implies #[trigger] s[i] != ',' && s[i] != '\n' by {
        if body.len() < s.len() {
            if i > 0 {
                assert(s[i] == body[i - 1]);
                assert(digit(body[i - 1]));
            }
        } else {
            assert(digit(body[i]));
        }
    }
}

/// The digits of a number can stand in any cell.
pub proof fn decimal_is_cell_text(n: nat)
    ensures
        cell_text(decimal(n)),
        decimal(n).len() > 0,
{
    decimal_reads_back(n);
    let s = decimal(n);
    assert forall|i: int| 0 <= i < s.len() implies #[trigger] s[i] != ',' && s[i] != '\n' by {
        assert(digit(s[i]));
    }
}

/// The cells of a row that the CSV can hold have neither commas nor line feeds.
proof fn cells_are_cell_text(row: RecordView, limit: u32)
    requires
        readable(row, limit),
    ensures
        forall|i: int| 0 <= i < 7 ==> cell_text(#[trigger] cells_of(row)[i]),
{
    let id = row.device_id;
    assert(cell_text(id)) by {
        assert forall|i: int| 0 <= i < id.len() implies #[trigger] id[i] != ',' && id[i]
            != '\n' by {
            assert(safe_char(id[i]));
        }
    }
    decimal_is_cell_text(row.used as nat);
    decimal_is_cell_text(row.limit as nat);
    unsigned_is_cell_text(row.updated_at);
    match row.last_velocity_mps {
        Some(speed) => {
            speed_has_speed_chars(speed);
            assert forall|i: int| 0 <= i < speed.len() implies #[trigger] speed[i] != ','
                && speed[i] != '\n' by {
                assert(speed_char(speed[i]));
            }
        },
        None => {},
    }
}

/// The CSV line of a row that the CSV can hold has no line feed and is not
/// blank, its cells can be told apart, and without a carriage return at its
/// end it is the line of the row as it is read.
proof fn line_of_row(row: RecordView, limit: u32)
    requires
        readable(row, limit),
    ensures
        pieces(joined(cells_of(row), ','), ',') == cells_of(row),
        free_of(joined(cells_of(row), ','), '\n'),
        !blank(joined(cells_of(row), ',')),
        without_return(joined(cells_of(row), ',')) == joined(cells_of(ended(row)), ','),
{
    let cells = cells_of(row);
    let line = joined(cells, ',');
    cells_are_cell_text(row, limit);
    assert forall|i: int| 0 <= i < cells.len() implies free_of(#[trigger] cells[i], ',') by {
        assert(cell_text(cells[i]));
    }
    joined_parts_split(cells, ',');
    assert forall|i: int| 0 <= i < cells.len() implies free_of(#[trigger] cells[i], '\n') by {
        assert(cell_text(cells[i]));
    }
    joined_is_free(cells, '\n');
    joined_starts(cells);
    assert(line[0] == row.device_id[0]);
    assert(safe_char(row.device_id[0]));
    assert(!blank_char(line[0]));
    let front = joined(cells.drop_last(), ',').push(',');
    assert(line == front + cells.last());
    assert(cells.last() == or_empty(row.last_applied_at));
    let again = cells_of(ended(row));
    assert(again.drop_last() =~= cells.drop_last());
    assert(joined(again, ',') == front + again.last());
    if cells.last().len() == 0 {
        assert(line.last() == ',');
        assert(again.last() =~= cells.last());
    } else {
        assert(line.last() == cells.last().last());
        assert(again.last() =~= without_return(cells.last()));
        if line.last() == '\r' {
            assert(line.drop_last() =~= front + cells.last().drop_last());
        }
    }
}

proof fn joined_is_free(parts: Seq<Seq<char>>, c: char)
    requires
        c != ',',
        forall|i: int| 0 <= i < parts.len() ==> free_of(#[trigger] parts[i], c),
    ensures
        free_of(joined(parts, ','), c),
    decreases parts.len(),
{
    if parts.len() > 1 {
        let front = parts.drop_last();
        assert forall|i: int| 0 <= i < front.len() implies free_of(#[trigger] front[i], c) by {
            assert(front[i] == parts[i]);
        }
        joined_is_free(front, c);
        assert(free_of(parts[parts.len() - 1], c));
        let head = joined(front, ',').push(',');
        let whole = joined(parts, ',');
        assert forall|i: int| 0 <= i < whole.len() implies #[trigger] whole[i] != c by {
            if i < head.len() - 1 {
                assert(whole[i] == joined(front, ',')[i]);
            } else if i >= head.len() {
                assert(whole[i] == parts.last()[i - head.len()]);
            }
        }
    } else if parts.len() == 1 {
        assert(free_of(parts[0], c));
    }
}

/// Joined text starts with its first part.
proof fn joined_starts(parts: Seq<Seq<char>>)
    requires
        parts.len() > 0,
        parts[0].len() > 0,
    ensures
        joined(parts, ',').len() > 0,
        joined(parts, ',')[0] == parts[0][0],
    decreases parts.len(),
{
    if parts.len() > 1 {
        joined_starts(parts.drop_last());
    }
}

/// The lines of `rows`, without line feeds.
pub open spec fn line_list(rows: Seq<RecordView>) -> Seq<Seq<char>> {
    rows.map_values(|row: RecordView| joined(cells_of(row), ','))
}

/// The pieces of the written lines are the lines and one empty rest.
proof fn csv_lines_split(rows: Seq<RecordView>, limit: u32)
    requires
        all_readable(rows, limit),
    ensures
        pieces(csv_lines(rows), '\n') == line_list(rows).push(Seq::<char>::empty()),
    decreases rows.len(),
{
    if rows.len() == 0 {
        assert(line_list(rows).push(Seq::<char>::empty()) =~= seq![Seq::<char>::empty()]);
    } else {
        let front = rows.drop_last();
        assert forall|i: int| 0 <= i < front.len() implies readable(
            #[trigger] front[i],
            limit,
        ) by {
            assert(front[i] == rows[i]);
        }
        csv_lines_split(front, limit);
        assert(readable(rows[rows.len() - 1], limit));
        let line = joined(cells_of(rows.last()), ',');
        line_of_row(rows.last(), limit);
        let earlier = line_list(front).push(Seq::<char>::empty());
        plain_text_extends_last_piece(csv_lines(front), line, '\n');
        assert(earlier.drop_last() =~= line_list(front));
        assert(Seq::<char>::empty() + line =~= line);
        let text = csv_lines(rows);
        assert(text.drop_last() =~= csv_lines(front) + line);
        assert(text.last() == '\n');
        assert(line_list(front).push(line) =~= line_list(rows));
    }
}

/// Adding a row behind all others appends it.
proof fn put_behind(rows: Seq<RecordView>, row: RecordView)
    requires
        ordered(rows.push(row)),
    ensures
        !registered(rows, row.device_id),
        put(rows, row) == rows.push(row),
{
    let all = rows.push(row);
    let id = row.device_id;
    before_is_strict_order(id, id, id);
    assert forall|i: int| 0 <= i < rows.len() implies before(#[trigger] rows[i].device_id, id) by {
        assert(all[i].device_id == rows[i].device_id);
        assert(before(all[i].device_id, all[rows.len() as int].device_id));
    }
    rank_is(rows, id, rows.len() as int);
    assert(rows.insert(rows.len() as int, row) =~= rows.push(row));
}

/// Reading the written lines gives the rows.
proof fn written_lines_read_back(rows: Seq<RecordView>, limit: u32)
    requires
        all_readable(rows, limit),
        ordered(rows),
    ensures
        read_lines(line_list(rows), limit) == Ok::<Seq<RecordView>, Seq<char>>(rows),
    decreases rows.len(),
{
    if rows.len() == 0 {
        assert(rows =~= Seq::<RecordView>::empty());
    } else {
        let front = rows.drop_last();
        let row = rows.last();
        assert forall|i: int| 0 <= i < front.len() implies readable(
            #[trigger] front[i],
            limit,
        ) by {
            assert(front[i] == rows[i]);
        }
        assert(ordered(front));
        written_lines_read_back(front, limit);
        assert(line_list(rows).drop_last() =~= line_list(front));
        assert(front.push(row) =~= rows);
        put_behind(front, row);
        assert(readable(rows[rows.len() - 1], limit));
        line_of_row(row, limit);
        let cells = cells_of(row);
        decimal_reads_back(row.used as nat);
        assert(unsigned(cells[1], u32::MAX as int) == Some(row.used as int));
        if row.last_velocity_mps is Some {
            speed_has_speed_chars(row.last_velocity_mps->0);
        }
        assert(non_empty(cells[5]) == row.last_velocity_mps);
        assert(non_empty(cells[6]) == row.last_applied_at);
        let number: nat = line_list(rows).len() + 1;
        assert(read_line(front, line_list(rows).last(), number, limit) == Ok::<
            Seq<RecordView>,
            Seq<char>,
        >(put(front, row)));
    }
}

/// Rows that have settled are still in order, and the CSV can hold them.
proof fn settled_rows_fit(rows: Seq<RecordView>, limit: u32)
    requires
        ordered(rows),
        all_readable(rows, limit),
    ensures
        ordered(settled_rows(rows)),
        all_readable(settled_rows(rows), limit),
{
    let again = settled_rows(rows);
    assert forall|i: int, j: int| 0 <= i < j < again.len() implies before(
        #[trigger] again[i].device_id,
        #[trigger] again[j].device_id,
    ) by {
        assert(before(rows[i].device_id, rows[j].device_id));
    }
    assert forall|i: int| 0 <= i < again.len() implies readable(#[trigger] again[i], limit) by {
        assert(readable(rows[i], limit));
    }
}

/// Settling changes nothing but speeds and last cells: each team keeps its row.
pub proof fn settled_rows_are_found(rows: Seq<RecordView>, id: Seq<char>)
    requires
        ordered(rows),
    ensures
        registered(settled_rows(rows), id) == registered(rows, id),
        find(settled_rows(rows), id) == (match find(rows, id) {
            Some(row) => Some(settled(row)),
            None => None,
        }),
{
    let again = settled_rows(rows);
    rank_splits(rows, id);
    registered_at_rank(rows, id);
    let at = rank(rows, id);
    assert forall|i: int| 0 <= i < at implies before(#[trigger] again[i].device_id, id) by {
        assert(before(rows[i].device_id, id));
    }
    rank_is(again, id, at);
    if registered(rows, id) {
        assert(again[at].device_id == id);
    } else if registered(again, id) {
        let i = choose|i: int| 0 <= i < again.len() && #[trigger] again[i].device_id == id;
        assert(rows[i].device_id == id);
    }
}

/// Reading the CSV text of rows that the CSV can hold gives those rows, but
/// for speeds that are not in their shortest text and for a carriage return at
/// the end of a last cell; where there is neither, it gives exactly those rows.
pub proof fn csv_reads_back(rows: Seq<RecordView>, limit: u32)
    requires
        ordered(rows),
        all_readable(rows, limit),
    ensures
        read_csv(csv_text(rows), limit) == Ok::<Seq<RecordView>, Seq<char>>(settled_rows(rows)),
        ordered(settled_rows(rows)),
        all_readable(settled_rows(rows), limit),
        plain(rows) ==> settled_rows(rows) == rows,
{
    let text = csv_text(rows);
    let written = shown_rows(rows);
    let body = csv_lines(written);
    assert(text.subrange(0, CSV_HEADER@.len() as int) =~= CSV_HEADER@);
    assert(text.skip(CSV_HEADER@.len() as int) =~= body);
    assert forall|i: int| 0 <= i < written.len() implies readable(#[trigger] written[i], limit) by {
        assert(readable(rows[i], limit));
    }
    csv_lines_split(written, limit);
    let lines = line_list(written);
    let parts = lines.push(Seq::<char>::empty());
    assert(parts.drop_last() =~= lines);
    let again = settled_rows(rows);
    let read = lines.map_values(|line: Seq<char>| without_return(line));
    assert(read =~= line_list(again)) by {
        assert forall|i: int| 0 <= i < lines.len() implies read[i] == line_list(again)[i] by {
            assert(readable(written[i], limit));
            line_of_row(written[i], limit);
        }
    }
    assert(lines_of(body) == line_list(again));
    settled_rows_fit(rows, limit);
    written_lines_read_back(again, limit);
    if plain(rows) {
        assert forall|i: int| 0 <= i < rows.len() implies settled(#[trigger] rows[i]) == rows[i] by {
            assert(rows[i].last_applied_at matches Some(applied) ==> applied.last() != '\r');
        }
        assert(again =~= rows);
    }
}

/// Lines hold no line feeds.
proof fn lines_are_free(s: Seq<char>)
    ensures
        forall|k: int| 0 <= k < lines_of(s).len() ==> free_of(#[trigger] lines_of(s)[k], '\n'),
{
    let parts = pieces(s, '\n');
    pieces_are_free(s, '\n', '\n');
    pieces_never_empty(s, '\n');
    let found = lines_of(s);
    assert forall|k: int| 0 <= k < found.len() implies free_of(#[trigger] found[k], '\n') by {
        assert(free_of(parts[k], '\n'));
        if k < parts.len() - 1 {
            assert(found[k] == without_return(parts[k]));
        } else {
            assert(found[k] == parts[k]);
        }
    }
}

/// What a line adds is a row that can be read.
proof fn line_adds_readable_row(
    rows: Seq<RecordView>,
    line: Seq<char>,
    number: nat,
    limit: u32,
)
    requires
        ordered(rows),
        forall|i: int| 0 <= i < rows.len() ==> readable(#[trigger] rows[i], limit),
        free_of(line, '\n'),
        read_line(rows, line, number, limit) is Ok,
    ensures
        ordered(read_line(rows, line, number, limit)->Ok_0),
        forall|i: int|
            0 <= i < read_line(rows, line, number, limit)->Ok_0.len() ==> readable(
                #[trigger] read_line(rows, line, number, limit)->Ok_0[i],
                limit,
            ),
{
    if !blank(line) {
        let cells = pieces(line, ',');
        pieces_are_free(line, ',', '\n');
        value_is_nonnegative(unsigned_part(cells[1]));
        let row = row_in(cells, limit);
        assert(cell_text(cells[3]));
        assert(cell_text(cells[6]));
        assert(readable(row, limit));
        put_keeps_order(rows, row);
        rank_splits(rows, row.device_id);
        registered_at_rank(rows, row.device_id);
        let at = rank(rows, row.device_id);
        let after = put(rows, row);
        assert forall|i: int| 0 <= i < after.len() implies readable(#[trigger] after[i], limit) by {
            if i < at {
                assert(after[i] == rows[i]);
            } else if i > at {
                assert(after[i] == rows[i - 1]);
            }
        }
    }
}

proof fn lines_give_readable_rows(lines: Seq<Seq<char>>, limit: u32)
    requires
        forall|k: int| 0 <= k < lines.len() ==> free_of(#[trigger] lines[k], '\n'),
        read_lines(lines, limit) is Ok,
    ensures
        ordered(read_lines(lines, limit)->Ok_0),
        forall|i: int|
            0 <= i < read_lines(lines, limit)->Ok_0.len() ==> readable(
                #[trigger] read_lines(lines, limit)->Ok_0[i],
                limit,
            ),
    decreases lines.len(),
{
    if lines.len() > 0 {
        let front = lines.drop_last();
        assert forall|k: int| 0 <= k < front.len() implies free_of(#[trigger] front[k], '\n') by {
            assert(front[k] == lines[k]);
        }
        lines_give_readable_rows(front, limit);
        assert(free_of(lines[lines.len() - 1], '\n'));
        line_adds_readable_row(
            read_lines(front, limit)->Ok_0,
            lines.last(),
            lines.len() + 1,
            limit,
        );
    }
}

/// The rows that are read from a CSV stand in the order of their ids, one to
/// an id, under the limit in force, and the CSV can hold them.
pub proof fn loaded_rows_are_readable(contents: Seq<char>, limit: u32)
    requires
        read_csv(contents, limit) is Ok,
    ensures
        ordered(read_csv(contents, limit)->Ok_0),
        all_readable(read_csv(contents, limit)->Ok_0, limit),
{
    let body = contents.skip(CSV_HEADER@.len() as int);
    lines_are_free(body);
    lines_give_readable_rows(lines_of(body), limit);
}

/// A row that is added keeps those that are there.
proof fn added_row_keeps_ids(rows: Seq<RecordView>, row: RecordView, id: Seq<char>)
    requires
        !registered(rows, row.device_id),
        registered(rows, id) || id == row.device_id,
    ensures
        registered(put(rows, row), id),
{
    let at = rank(rows, row.device_id);
    rank_splits(rows, row.device_id);
    let after = put(rows, row);
    if id == row.device_id {
        assert(after[at].device_id == id);
    } else {
        let i = choose|i: int| 0 <= i < rows.len() && #[trigger] rows[i].device_id == id;
        let moved = if i < at { i } else { i + 1 };
        assert(after[moved] == rows[i]);
        assert(after[moved].device_id == id);
    }
}

proof fn lines_register_their_ids(lines: Seq<Seq<char>>, limit: u32, i: int)
    requires
        read_lines(lines, limit) is Ok,
        0 <= i < lines.len(),
        !blank(lines[i]),
    ensures
        registered(read_lines(lines, limit)->Ok_0, pieces(lines[i], ',')[0]),
    decreases lines.len(),
{
    let front = lines.drop_last();
    let rows = read_lines(front, limit)->Ok_0;
    let id = pieces(lines[i], ',')[0];
    if i < front.len() {
        assert(front[i] == lines[i]);
        lines_register_their_ids(front, limit, i);
    }
    if !blank(lines.last()) {
        let cells = pieces(lines.last(), ',');
        let row = row_in(cells, limit);
        added_row_keeps_ids(rows, row, id);
    }
}

/// A CSV that lists a team in two of its lines is refused as a whole.
pub proof fn a_team_listed_twice_is_refused(contents: Seq<char>, limit: u32, i: int, j: int)
    requires
        0 <= i < j < lines_of(contents.skip(CSV_HEADER@.len() as int)).len(),
        ({
            let lines = lines_of(contents.skip(CSV_HEADER@.len() as int));
            &&& !blank(lines[i])
            &&& !blank(lines[j])
            &&& pieces(lines[i], ',')[0] == pieces(lines[j], ',')[0]
        }),
    ensures
        read_csv(contents, limit) is Err,
{
    let lines = lines_of(contents.skip(CSV_HEADER@.len() as int));
    let front = lines.take(j);
    let upto = lines.take(j + 1);
    assert(upto.drop_last() =~= front);
    assert(upto.last() == lines[j]);
    if read_lines(front, limit) is Ok {
        assert(front[i] == lines[i]);
        lines_register_their_ids(front, limit, i);
    }
    failure_lasts(lines, j + 1, limit);
}

/// Rows stand in order however they are read.
proof fn lines_give_ordered_rows(lines: Seq<Seq<char>>, limit: u32)
    requires
        read_lines(lines, limit) is Ok,
    ensures
        ordered(read_lines(lines, limit)->Ok_0),
    decreases lines.len(),
{
    if lines.len() > 0 {
        let front = lines.drop_last();
        lines_give_ordered_rows(front, limit);
        if !blank(lines.last()) {
            let rows = read_lines(front, limit)->Ok_0;
            put_keeps_order(rows, row_in(pieces(lines.last(), ','), limit));
        }
    }
}

/// Reading without the line of one team gives the rows of all others.
proof fn lines_without_one_are_read(lines: Seq<Seq<char>>, limit: u32, i: int, other: Seq<char>)
    requires
        read_lines(lines, limit) is Ok,
        0 <= i < lines.len(),
        !blank(lines[i]),
        other != pieces(lines[i], ',')[0],
    ensures
        ({
            let id = pieces(lines[i], ',')[0];
            let left = read_lines(lines.remove(i), limit);
            &&& left is Ok
            &&& ordered(left->Ok_0)
            &&& !registered(left->Ok_0, id)
            &&& find(left->Ok_0, other) == find(read_lines(lines, limit)->Ok_0, other)
        }),
    decreases lines.len(),
{
    let id = pieces(lines[i], ',')[0];
    let front = lines.drop_last();
    let last = lines.last();
    let rows = read_lines(front, limit)->Ok_0;
    let row = row_in(pieces(last, ','), limit);
    lines_give_ordered_rows(front, limit);
    if i == lines.len() - 1 {
        assert(lines.remove(i) =~= front);
        put_then_find(rows, row, other);
    } else {
        assert(front[i] == lines[i]);
        assert(lines.remove(i).drop_last() =~= front.remove(i));
        assert(lines.remove(i).last() == last);
        lines_without_one_are_read(front, limit, i, other);
        if !blank(last) {
            lines_register_their_ids(front, limit, i);
            let team = row.device_id;
            assert(team != id);
            lines_without_one_are_read(front, limit, i, team);
            let fewer = read_lines(front.remove(i), limit)->Ok_0;
            assert(find(rows, team) is None);
            put_then_find(rows, row, other);
            put_then_find(fewer, row, other);
            put_then_find(fewer, row, id);
            assert(find(put(fewer, row), id) is None);
        }
    }
}

/// Deleting the line of one team from a CSV that loads, whoever wrote it,
/// resets that team to the full allowance and leaves every other team as it
/// was. `left` is any text whose lines are those of `contents` without the
/// one at `i`.
pub proof fn deleting_a_line_resets_one_team(
    contents: Seq<char>,
    left: Seq<char>,
    limit: u32,
    i: int,
    credential: CredentialView,
    now: nat,
    other: Seq<char>,
)
    requires
        read_csv(contents, limit) is Ok,
        CSV_HEADER@.is_prefix_of(left),
        ({
            let lines = lines_of(contents.skip(CSV_HEADER@.len() as int));
            &&& 0 <= i < lines.len()
            &&& lines_of(left.skip(CSV_HEADER@.len() as int)) == lines.remove(i)
            &&& !blank(lines[i])
            &&& credential.device_id == pieces(lines[i], ',')[0]
        }),
        other != credential.device_id,
    ensures
        ({
            let rows = read_csv(contents, limit)->Ok_0;
            &&& registered(rows, credential.device_id)
            &&& read_csv(left, limit) matches Ok(fewer) && find(fewer, other) == find(rows, other)
                && rows_after(fewer, limit, credential, UpdateView::Read, now) == Ok::<
                BudgetUpdateView,
                Seq<char>,
            >(BudgetUpdateView { state: full_allowance(credential, limit), saved: None })
        }),
{
    let lines = lines_of(contents.skip(CSV_HEADER@.len() as int));
    lines_register_their_ids(lines, limit, i);
    lines_without_one_are_read(lines, limit, i, other);
}

/// Text behind a separator adds its pieces to those before it.
proof fn pieces_of_both(a: Seq<char>, b: Seq<char>, separator: char)
    ensures
        pieces(a.push(separator) + b, separator) == pieces(a, separator) + pieces(b, separator),
    decreases b.len(),
{
    let head = a.push(separator);
    let whole = head + b;
    if b.len() == 0 {
        assert(whole =~= head);
        assert(head.drop_last() =~= a);
        assert(pieces(a, separator).push(Seq::<char>::empty()) =~= pieces(a, separator) + pieces(
            b,
            separator,
        ));
    } else {
        let front = b.drop_last();
        pieces_of_both(a, front, separator);
        pieces_never_empty(front, separator);
        assert(whole.drop_last() =~= head + front);
        let earlier = pieces(a, separator) + pieces(front, separator);
        assert(earlier.last() == pieces(front, separator).last());
        assert(earlier.drop_last() =~= pieces(a, separator) + pieces(front, separator).drop_last());
        assert(pieces(whole, separator) =~= pieces(a, separator) + pieces(b, separator));
    }
}

/// Text behind a line feed adds its lines to those before it.
proof fn lines_of_both(a: Seq<char>, b: Seq<char>)
    ensures
        lines_of(a.push('\n') + b) == lines_of(a.push('\n')) + lines_of(b),
{
    pieces_of_both(a, b, '\n');
    pieces_of_both(a, Seq::empty(), '\n');
    assert(a.push('\n') + Seq::<char>::empty() =~= a.push('\n'));
    pieces_never_empty(b, '\n');
    let of_a = pieces(a, '\n');
    let of_b = pieces(b, '\n');
    let all = of_a + of_b;
    assert(all.last() == of_b.last());
    assert(all.drop_last() =~= of_a + of_b.drop_last());
    let alone = of_a + pieces(Seq::<char>::empty(), '\n');
    assert(alone.drop_last() =~= of_a);
    assert(alone.last().len() == 0);
    assert(lines_of(a.push('\n') + b) =~= lines_of(a.push('\n')) + lines_of(b));
}

/// Cutting a line and its line feed out of a text takes one line away, as does
/// cutting off a last line that has no line feed. What stands before is empty
/// or ends in a line feed.
pub proof fn cutting_a_line_removes_it(head: Seq<char>, line: Seq<char>, tail: Seq<char>)
    requires
        head.len() > 0 ==> head.last() == '\n',
        free_of(line, '\n'),
    ensures
        ({
            let whole = lines_of(head + (line.push('\n') + tail));
            let at = lines_of(head).len() as int;
            &&& at < whole.len()
            &&& whole[at] == without_return(line)
            &&& lines_of(head + tail) == whole.remove(at)
        }),
        line.len() > 0 ==> ({
            let whole = lines_of(head + line);
            let at = lines_of(head).len() as int;
            &&& at < whole.len()
            &&& whole[at] == line
            &&& lines_of(head) == whole.remove(at)
        }),
{
    let cut = line.push('\n');
    let before_head = lines_of(head);
    assert forall|rest: Seq<char>| lines_of(#[trigger] (head + rest)) == before_head + lines_of(
        rest,
    ) by {
        if head.len() > 0 {
            assert(head.drop_last().push('\n') =~= head);
            lines_of_both(head.drop_last(), rest);
        } else {
            assert(head + rest =~= rest);
            assert(head =~= Seq::<char>::empty());
            assert(before_head =~= Seq::<Seq<char>>::empty());
            assert(before_head + lines_of(rest) =~= lines_of(rest));
        }
    }
    plain_text_is_one_piece(line, '\n');
    lines_of_both(line, tail);
    assert(cut.drop_last() =~= line);
    assert(seq![line].push(Seq::<char>::empty()).drop_last() =~= seq![line]);
    assert(lines_of(cut) =~= seq![without_return(line)]);
    let whole = lines_of(head + (cut + tail));
    assert(whole == before_head + (seq![without_return(line)] + lines_of(tail)));
    assert(whole.remove(before_head.len() as int) =~= before_head + lines_of(tail));
    if line.len() > 0 {
        assert(seq![line].drop_last() =~= Seq::<Seq<char>>::empty());
        assert(lines_of(line) =~= seq![line]);
        assert(lines_of(head + line).remove(before_head.len() as int) =~= before_head);
    }
}

/// The row that a line of seven cells stands for, cell by cell.
pub open spec fn line_stands_for(line: Seq<char>, row: RecordView, limit: u32) -> bool {
    let cells = pieces(line, ',');
    let used = unsigned(cells[1], u32::MAX as int);
    &&& cells.len() == 7
    &&& row.device_id == cells[0]
    &&& used is Some
    &&& used->0 <= limit ==> row.used == used->0
    &&& used->0 > limit ==> row.used == limit
    &&& row.limit == limit
    &&& row.created_at == cells[3]
    &&& row.updated_at == cells[4]
    &&& cells[5].len() == 0 ==> row.last_velocity_mps is None
    &&& cells[5].len() > 0 ==> row.last_velocity_mps == Some(cells[5])
    &&& cells[6].len() == 0 ==> row.last_applied_at is None
    &&& cells[6].len() > 0 ==> row.last_applied_at == Some(cells[6])
}

proof fn lines_are_rows(lines: Seq<Seq<char>>, limit: u32, i: int)
    requires
        read_lines(lines, limit) is Ok,
        0 <= i < lines.len(),
        !blank(lines[i]),
    ensures
        find(read_lines(lines, limit)->Ok_0, pieces(lines[i], ',')[0]) matches Some(row)
            && line_stands_for(lines[i], row, limit),
    decreases lines.len(),
{
    let front = lines.drop_last();
    let rows = read_lines(front, limit)->Ok_0;
    let id = pieces(lines[i], ',')[0];
    lines_give_ordered_rows(front, limit);
    let last = lines.last();
    let row = row_in(pieces(last, ','), limit);
    if i < front.len() {
        assert(front[i] == lines[i]);
        lines_are_rows(front, limit, i);
        if !blank(last) {
            lines_register_their_ids(front, limit, i);
            put_then_find(rows, row, id);
        }
    } else {
        value_is_nonnegative(unsigned_part(pieces(last, ',')[1]));
        put_then_find(rows, row, id);
    }
}

proof fn rows_come_from_lines(lines: Seq<Seq<char>>, limit: u32, id: Seq<char>)
    requires
        read_lines(lines, limit) is Ok,
        registered(read_lines(lines, limit)->Ok_0, id),
    ensures
        exists|i: int|
            0 <= i < lines.len() && !blank(#[trigger] lines[i]) && pieces(lines[i], ',')[0] == id,
    decreases lines.len(),
{
    if lines.len() > 0 {
        let front = lines.drop_last();
        let rows = read_lines(front, limit)->Ok_0;
        lines_give_ordered_rows(front, limit);
        let last = lines.last();
        let row = row_in(pieces(last, ','), limit);
        if !blank(last) {
            if id == row.device_id {
                assert(!blank(lines[lines.len() - 1]));
            } else {
                put_then_find(rows, row, id);
                assert(registered(put(rows, row), id) == (find(put(rows, row), id) is Some));
                assert(registered(rows, id));
            }
        }
        if registered(rows, id) {
            rows_come_from_lines(front, limit, id);
            let i = choose|i: int|
                0 <= i < front.len() && !blank(#[trigger] front[i]) && pieces(front[i], ',')[0]
                    == id;
            assert(lines[i] == front[i]);
        }
    }
}

/// In a CSV that loads, each line that is not blank is the row of the team in
/// its first cell, cell by cell, and there are no other rows.
pub proof fn each_line_is_a_row(contents: Seq<char>, limit: u32, i: int, id: Seq<char>)
    requires
        read_csv(contents, limit) is Ok,
    ensures
        ({
            let lines = lines_of(contents.skip(CSV_HEADER@.len() as int));
            let rows = read_csv(contents, limit)->Ok_0;
            &&& 0 <= i < lines.len() && !blank(lines[i]) ==> (find(
                rows,
                pieces(lines[i], ',')[0],
            ) matches Some(row) && line_stands_for(lines[i], row, limit))
            &&& registered(rows, id) ==> exists|k: int|
                0 <= k < lines.len() && !blank(#[trigger] lines[k]) && pieces(lines[k], ',')[0]
                    == id
        }),
{
    let lines = lines_of(contents.skip(CSV_HEADER@.len() as int));
    if 0 <= i < lines.len() && !blank(lines[i]) {
        lines_are_rows(lines, limit, i);
    }
    if registered(read_csv(contents, limit)->Ok_0, id) {
        rows_come_from_lines(lines, limit, id);
    }
}

/// A line that can be read: a team, a count, a limit and a time of any text, a
/// version, a speed or none, and any text.
pub open spec fn line_fits(line: Seq<char>) -> bool {
    let cells = pieces(line, ',');
    &&& cells.len() == 7
    &&& safe_id(cells[0])
    &&& unsigned(cells[1], u32::MAX as int) is Some
    &&& unsigned(cells[4], u128::MAX as int) is Some
    &&& cells[5].len() == 0 || speed_text(cells[5])
}

proof fn fitting_lines_are_read(lines: Seq<Seq<char>>, limit: u32)
    requires
        forall|i: int| 0 <= i < lines.len() ==> blank(#[trigger] lines[i]) || line_fits(lines[i]),
        forall|i: int, j: int|
            0 <= i < j < lines.len() && !blank(#[trigger] lines[i]) && !blank(#[trigger] lines[j])
                ==> pieces(lines[i], ',')[0] != pieces(lines[j], ',')[0],
    ensures
        read_lines(lines, limit) is Ok,
    decreases lines.len(),
{
    if lines.len() > 0 {
        let front = lines.drop_last();
        let end = lines.len() - 1;
        assert forall|i: int| 0 <= i < front.len() implies blank(#[trigger] front[i]) || line_fits(
            front[i],
        ) by {
            assert(front[i] == lines[i]);
        }
        assert forall|i: int, j: int|
            0 <= i < j < front.len() && !blank(#[trigger] front[i]) && !blank(
                #[trigger] front[j],
            ) implies pieces(front[i], ',')[0] != pieces(front[j], ',')[0] by {
            assert(front[i] == lines[i] && front[j] == lines[j]);
        }
        fitting_lines_are_read(front, limit);
        let rows = read_lines(front, limit)->Ok_0;
        assert(blank(lines[end]) || line_fits(lines[end]));
        let id = pieces(lines[end], ',')[0];
        if !blank(lines[end]) && registered(rows, id) {
            rows_come_from_lines(front, limit, id);
            let i = choose|i: int|
                0 <= i < front.len() && !blank(#[trigger] front[i]) && pieces(front[i], ',')[0]
                    == id;
            assert(front[i] == lines[i]);
            assert(false);
        }
    }
}

/// A CSV loads exactly where it starts with the header, and every line behind
/// it is blank or can be read, and no team is listed twice.
pub proof fn a_csv_loads_when_its_lines_fit(contents: Seq<char>, limit: u32)
    ensures
        ({
            let lines = lines_of(contents.skip(CSV_HEADER@.len() as int));
            read_csv(contents, limit) is Ok <==> {
                &&& CSV_HEADER@.is_prefix_of(contents)
                &&& forall|i: int|
                    0 <= i < lines.len() ==> blank(#[trigger] lines[i]) || line_fits(lines[i])
                &&& forall|i: int, j: int|
                    0 <= i < j < lines.len() && !blank(#[trigger] lines[i]) && !blank(
                        #[trigger] lines[j],
                    ) ==> pieces(lines[i], ',')[0] != pieces(lines[j], ',')[0]
            }
        }),
{
    let lines = lines_of(contents.skip(CSV_HEADER@.len() as int));
    if read_csv(contents, limit) is Ok {
        assert forall|i: int| 0 <= i < lines.len() implies blank(#[trigger] lines[i]) || line_fits(
            lines[i],
        ) by {
            read_lines_fit(lines, limit, i);
        }
        assert forall|i: int, j: int|
            0 <= i < j < lines.len() && !blank(#[trigger] lines[i]) && !blank(
                #[trigger] lines[j],
            ) implies pieces(lines[i], ',')[0] != pieces(lines[j], ',')[0] by {
            if pieces(lines[i], ',')[0] == pieces(lines[j], ',')[0] {
                a_team_listed_twice_is_refused(contents, limit, i, j);
            }
        }
    } else if CSV_HEADER@.is_prefix_of(contents) && (forall|i: int|
        0 <= i < lines.len() ==> blank(#[trigger] lines[i]) || line_fits(lines[i])) && (forall|
        i: int,
        j: int,
    |
        0 <= i < j < lines.len() && !blank(#[trigger] lines[i]) && !blank(#[trigger] lines[j])
            ==> pieces(lines[i], ',')[0] != pieces(lines[j], ',')[0]) {
        fitting_lines_are_read(lines, limit);
    }
}

proof fn read_lines_fit(lines: Seq<Seq<char>>, limit: u32, i: int)
    requires
        read_lines(lines, limit) is Ok,
        0 <= i < lines.len(),
    ensures
        blank(lines[i]) || line_fits(lines[i]),
    decreases lines.len(),
{
    let front = lines.drop_last();
    if i < front.len() {
        assert(front[i] == lines[i]);
        read_lines_fit(front, limit, i);
    }
}

/// The CSV is its header line, and each row adds one line behind the others:
/// the id, the count, the limit, the times of creation and of the last change,
/// the speed and the time of the last command, or nothing for either of these,
/// with commas between them.
#[verifier::rlimit(40)]
pub proof fn each_row_is_a_line(rows: Seq<RecordView>, row: RecordView)
    ensures
        csv_text(Seq::empty())
            == "device_id,used,limit,created_at,updated_at,last_velocity_mps,last_applied_at\n"@,
        csv_text(rows.push(row)) == csv_text(rows) + (row.device_id + seq![','] + decimal(
            row.used as nat,
        ) + seq![','] + decimal(row.limit as nat) + seq![','] + row.created_at + seq![',']
            + row.updated_at + seq![','] + (match row.last_velocity_mps {
            Some(speed) => shown_speed(speed),
            None => Seq::empty(),
        }) + seq![','] + (match row.last_applied_at {
            Some(applied) => applied,
            None => Seq::empty(),
        }) + seq!['\n']),
{
    assert(shown_rows(Seq::empty()) =~= Seq::<RecordView>::empty());
    assert(csv_text(Seq::empty()) =~= CSV_HEADER@);
    let shown_now = shown_rows(rows.push(row));
    assert(shown_now.drop_last() =~= shown_rows(rows));
    assert(shown_now.last() == shown(row));
    let cells = cells_of(shown(row));
    let line = joined(cells, ',');
    assert(cells.take(7) =~= cells);
    joined_one_more(cells, 7);
    joined_one_more(cells, 6);
    joined_one_more(cells, 5);
    joined_one_more(cells, 4);
    joined_one_more(cells, 3);
    joined_one_more(cells, 2);
    assert(joined(cells.take(1), ',') == cells[0]);
    let written = row.device_id + seq![','] + cells[1] + seq![','] + cells[2] + seq![',']
        + cells[3] + seq![','] + cells[4] + seq![','] + cells[5] + seq![','] + cells[6];
    assert(line =~= written);
    assert(csv_text(rows.push(row)) =~= csv_text(rows) + (written + seq!['\n']));
}

proof fn joined_one_more(parts: Seq<Seq<char>>, count: int)
    requires
        2 <= count <= parts.len(),
    ensures
        joined(parts.take(count), ',') == joined(parts.take(count - 1), ',').push(',') + parts[count
            - 1],
{
    assert(parts.take(count).drop_last() =~= parts.take(count - 1));
}

/// A line ends in a line feed, which a carriage return may precede; what is
/// left behind the last line feed is a line too, and nothing is none.
pub proof fn lines_end_in_line_feeds(line: Seq<char>, rest: Seq<char>)
    requires
        free_of(line, '\n'),
    ensures
        lines_of(line.push('\r').push('\n') + rest) == seq![line] + lines_of(rest),
        line.len() == 0 || line.last() != '\r' ==> lines_of(line.push('\n') + rest) == seq![line]
            + lines_of(rest),
        line.len() > 0 ==> lines_of(line) == seq![line],
        lines_of(Seq::empty()).len() == 0,
{
    let returned = line.push('\r');
    assert(free_of(returned, '\n')) by {
        assert forall|i: int| 0 <= i < returned.len() implies #[trigger] returned[i] != '\n' by {
            if i < line.len() {
                assert(returned[i] == line[i]);
            }
        }
    }
    assert(returned.drop_last() =~= line);
    one_line(line);
    one_line(returned);
    lines_of_both(line, rest);
    lines_of_both(returned, rest);
    plain_text_is_one_piece(line, '\n');
    assert(seq![line].drop_last() =~= Seq::<Seq<char>>::empty());
    if line.len() > 0 {
        assert(lines_of(line) =~= seq![line]);
    }
    let nothing = Seq::<char>::empty();
    plain_text_is_one_piece(nothing, '\n');
    assert(seq![nothing].drop_last() =~= Seq::<Seq<char>>::empty());
}

proof fn one_line(line: Seq<char>)
    requires
        free_of(line, '\n'),
    ensures
        lines_of(line.push('\n')) == seq![without_return(line)],
{
    plain_text_is_one_piece(line, '\n');
    assert(line.push('\n').drop_last() =~= line);
    assert(seq![line].push(Seq::<char>::empty()).drop_last() =~= seq![line]);
    assert(lines_of(line.push('\n')) =~= seq![without_return(line)]);
}

/// Where a CSV is refused, the message says what is wrong, and in which line:
/// the header is line 1, and the first line that is wrong is the one named.
pub proof fn the_first_bad_line_is_named(contents: Seq<char>, limit: u32, i: int)
    requires
        ({
            let lines = lines_of(contents.skip(CSV_HEADER@.len() as int));
            &&& 0 <= i < lines.len()
            &&& !blank(lines[i])
            &&& forall|j: int| 0 <= j < i ==> blank(#[trigger] lines[j]) || line_fits(lines[j])
            &&& forall|j: int, k: int|
                0 <= j < k < i && !blank(#[trigger] lines[j]) && !blank(#[trigger] lines[k])
                    ==> pieces(lines[j], ',')[0] != pieces(lines[k], ',')[0]
        }),
        CSV_HEADER@.is_prefix_of(contents),
    ensures
        ({
            let lines = lines_of(contents.skip(CSV_HEADER@.len() as int));
            let cells = pieces(lines[i], ',');
            let loaded = read_csv(contents, limit);
            let number = decimal((i + 2) as nat);
            let named = cells.len() == 7 && safe_id(cells[0]);
            let counted = named && unsigned(cells[1], u32::MAX as int) is Some;
            let sped = counted && (cells[5].len() == 0 || speed_text(cells[5]));
            let fit = sped && unsigned(cells[4], u128::MAX as int) is Some;
            &&& !named ==> loaded == Err::<Seq<RecordView>, Seq<char>>(
                "invalid velocity budget CSV row "@ + number,
            )
            &&& named && !counted ==> loaded == Err::<Seq<RecordView>, Seq<char>>(
                "invalid used count in CSV row "@ + number,
            )
            &&& counted && !sped ==> loaded == Err::<Seq<RecordView>, Seq<char>>(
                "invalid velocity in CSV row "@ + number,
            )
            &&& sped && !fit ==> loaded == Err::<Seq<RecordView>, Seq<char>>(
                "invalid updated_at version in CSV row "@ + number,
            )
            &&& fit && (exists|j: int|
                0 <= j < i && !blank(#[trigger] lines[j]) && pieces(lines[j], ',')[0] == cells[0])
                ==> loaded == Err::<Seq<RecordView>, Seq<char>>(
                "duplicate device id in velocity budget CSV row "@ + number,
            )
        }),
{
    let lines = lines_of(contents.skip(CSV_HEADER@.len() as int));
    let front = lines.take(i);
    let upto = lines.take(i + 1);
    assert forall|j: int| 0 <= j < front.len() implies blank(#[trigger] front[j]) || line_fits(
        front[j],
    ) by {
        assert(front[j] == lines[j]);
    }
    assert forall|j: int, k: int|
        0 <= j < k < front.len() && !blank(#[trigger] front[j]) && !blank(
            #[trigger] front[k],
        ) implies pieces(front[j], ',')[0] != pieces(front[k], ',')[0] by {
        assert(front[j] == lines[j] && front[k] == lines[k]);
    }
    fitting_lines_are_read(front, limit);
    assert(upto.drop_last() =~= front);
    assert(upto.last() == lines[i]);
    let id = pieces(lines[i], ',')[0];
    if exists|j: int| 0 <= j < i && !blank(#[trigger] lines[j]) && pieces(lines[j], ',')[0] == id {
        let j = choose|j: int|
            0 <= j < i && !blank(#[trigger] lines[j]) && pieces(lines[j], ',')[0] == id;
        assert(front[j] == lines[j]);
        lines_register_their_ids(front, limit, j);
    }
    if read_lines(upto, limit) is Err {
        failure_lasts(lines, i + 1, limit);
    }
}

/// Where the files cannot be read, the message says why; without a CSV and a
/// mirror there is nothing to read, and a CSV that is there is all that counts.
pub proof fn unread_files_say_why(
    files: FilesView,
    csv_path: Seq<char>,
    limit: u32,
    reason: Seq<char>,
    contents: Seq<char>,
)
    ensures
        ({
            let rows = rows_of(files, csv_path, limit);
            &&& files.csv == CsvFileView::Unreadable(reason) ==> rows == Err::<
                Seq<RecordView>,
                Seq<char>,
            >("read velocity budget CSV "@ + csv_path + ": "@ + reason)
            &&& files.csv is Missing && files.mirror_exists ==> rows == Err::<
                Seq<RecordView>,
                Seq<char>,
            >(
                "authoritative velocity budget CSV "@ + csv_path
                    + " is missing while JSON mirror exists"@,
            )
            &&& files.csv is Missing && !files.mirror_exists ==> rows is Ok && rows->Ok_0.len() == 0
            &&& files.csv == CsvFileView::Contents(contents) && !(
            "device_id,used,limit,created_at,updated_at,last_velocity_mps,last_applied_at\n"@).is_prefix_of(
            contents) ==> rows == Err::<Seq<RecordView>, Seq<char>>(
                "velocity budget CSV is empty or has an invalid header"@,
            )
        }),
{
}

} // verus!
