use vstd::prelude::*;

use soup::{NodeExt, QueryBuilderExt, Soup};

use crate::BookingError;
use crate::task::{FetchTask, FetchTaskView};
use crate::text::{split_ws, tokens_of};

verus! {

// ---------------------------------------------------------------------------
// The record table, as the markup parser hands it out
// ---------------------------------------------------------------------------

/// The cell texts of the table carrying `table_id` in `html`: `None` when no
/// element carries that id, else one sequence of cell texts per `tr` row,
/// the header row included; a function of the two strings alone.
pub uninterp spec fn booking_rows_of(html: Seq<char>, table_id: Seq<char>) -> Option<
    Seq<Seq<Seq<char>>>,
>;

/// Relies on soup::Soup::new and its query builders: parses the page text,
/// finds the element whose `id` attribute equals `table_id`, and hands out
/// the text of every `td` cell of every `tr` row under it, in document
/// order; the parse is a deterministic function of the two strings.
#[verifier::external_body]
fn record_table_rows(html: &str, table_id: &str) -> (r: Option<Vec<Vec<String>>>)
    ensures
        match r {
            Some(rows) => booking_rows_of(html@, table_id@) == Some(rows.deep_view()),
            None => booking_rows_of(html@, table_id@) is None,
        },
{
    let table = Soup::new(html).attr("id", table_id).find()?;
    Some(
        table.tag("tr").find_all().map(
            |row| row.tag("td").find_all().map(|cell| cell.text()).collect(),
        ).collect(),
    )
}

/// The fixed identifier of the bookings page's record table.
pub open spec fn record_table_id() -> Seq<char> {
    "main_gvRecord"@
}

// ---------------------------------------------------------------------------
// Parsing the rows into records
// ---------------------------------------------------------------------------

/// A row with more than three cells carries data; the rest are decorative.
pub open spec fn is_data_row(r: Seq<Seq<char>>) -> bool {
    r.len() > 3
}

/// The data rows of a row sequence, in order.
pub open spec fn spec_data_rows(rows: Seq<Seq<Seq<char>>>) -> Seq<Seq<Seq<char>>>
    decreases rows.len(),
{
    if rows.len() == 0 {
        Seq::empty()
    } else {
        let rest = spec_data_rows(rows.drop_last());
        if is_data_row(rows.last()) {
            rest.push(rows.last())
        } else {
            rest
        }
    }
}

proof fn lemma_data_rows_step(a: Seq<Seq<Seq<char>>>, x: Seq<Seq<char>>)
    ensures
        spec_data_rows(a.push(x)) == if is_data_row(x) {
            spec_data_rows(a).push(x)
        } else {
            spec_data_rows(a)
        },
{
    assert(a.push(x).drop_last() =~= a);
    assert(a.push(x).last() == x);
}

proof fn lemma_data_rows_contains(rows: Seq<Seq<Seq<char>>>, i: int)
    requires
        0 <= i < rows.len(),
        is_data_row(rows[i]),
    ensures
        exists|k: int|
            0 <= k < spec_data_rows(rows).len() && #[trigger] spec_data_rows(rows)[k] == rows[i],
    decreases rows.len(),
{
    let data = spec_data_rows(rows);
    if i == rows.len() - 1 {
        assert(data[data.len() - 1] == rows[i]);
    } else {
        lemma_data_rows_contains(rows.drop_last(), i);
        let rest = spec_data_rows(rows.drop_last());
        let k = choose|k: int| 0 <= k < rest.len() && #[trigger] rest[k] == rows.drop_last()[i];
        assert(data[k] == rows[i]);
    }
}

/// The rows after the header row.
pub open spec fn rows_body(rows: Seq<Seq<Seq<char>>>) -> Seq<Seq<Seq<char>>> {
    if rows.len() == 0 {
        rows
    } else {
        rows.subrange(1, rows.len() as int)
    }
}

/// A data row holds the seven cells the reader indexes, and its two
/// date-and-time cells each hold at least one whitespace token.
pub open spec fn row_ok(r: Seq<Seq<char>>) -> bool {
    &&& r.len() >= 7
    &&& tokens_of(r[1]).len() >= 1
    &&& tokens_of(r[2]).len() >= 1
}

/// The record a data row denotes: the date is the first whitespace token of
/// the second cell; the start and end times are the trailing whitespace
/// tokens of the second and third cells; facility name and status come from
/// the sixth and seventh; the time is shown as `"start - end"`.
pub open spec fn row_record(r: Seq<Seq<char>>) -> FetchTaskView {
    FetchTaskView {
        date: tokens_of(r[1])[0],
        time: tokens_of(r[1]).last() + " - "@ + tokens_of(r[2]).last(),
        facility_name: r[5],
        state: r[6],
    }
}

/// `v` is exactly the record list read from `rows`: one record per data row
/// after the header, in order, each as `row_record` gives it.
pub open spec fn records_of_rows(v: Seq<FetchTaskView>, rows: Seq<Seq<Seq<char>>>) -> bool {
    let data = spec_data_rows(rows_body(rows));
    &&& forall|k: int| 0 <= k < data.len() ==> row_ok(#[trigger] data[k])
    &&& v.len() == data.len()
    &&& forall|k: int| 0 <= k < data.len() ==> v[k] == row_record(#[trigger] data[k])
}

/// Some data row after the header lacks the cells or tokens the reader needs.
pub open spec fn has_malformed_row(rows: Seq<Seq<Seq<char>>>) -> bool {
    exists|k: int|
        0 <= k < spec_data_rows(rows_body(rows)).len() && !row_ok(
            #[trigger] spec_data_rows(rows_body(rows))[k],
        )
}

/// Parse the record table's rows (header first) into fetched records. Rows
/// with three or fewer cells are skipped; any other row must carry the seven
/// cells and a time token in each time cell, else `MalformedRecord`.
pub fn parse_record_rows(rows: &Vec<Vec<String>>) -> (r: Result<Vec<FetchTask>, BookingError>)
    ensures
        match r {
            Ok(v) => records_of_rows(v.deep_view(), rows.deep_view()),
            Err(e) => e == BookingError::MalformedRecord && has_malformed_row(rows.deep_view()),
        },
{
    let ghost all = rows.deep_view();
    let n = rows.len();
    let mut out: Vec<FetchTask> = Vec::new();
    if n == 0 {
        proof {
            assert(records_of_rows(out.deep_view(), all));
        }
        return Ok(out);
    }
    let mut i: usize = 1;
    proof {
        assert(all.subrange(1, 1).len() == 0);
        assert(spec_data_rows(all.subrange(1, 1)).len() == 0);
        assert(out.deep_view().len() == 0);
    }
    while i < n
        invariant
            n == rows@.len(),
            all == rows.deep_view(),
            n >= 1,
            1 <= i <= n,
            out.deep_view().len() == spec_data_rows(all.subrange(1, i as int)).len(),
            forall|k: int|
                0 <= k < out.deep_view().len() ==> row_ok(
                    #[trigger] spec_data_rows(all.subrange(1, i as int))[k],
                ),
            forall|k: int|
                0 <= k < out.deep_view().len() ==> out.deep_view()[k] == row_record(
                    #[trigger] spec_data_rows(all.subrange(1, i as int))[k],
                ),
        decreases n - i,
    {
        let ghost prefix = all.subrange(1, i as int);
        let ghost prefix1 = all.subrange(1, i + 1);
        let ghost rowv = all[i as int];
        proof {
            assert(prefix1 =~= prefix.push(rowv));
            lemma_data_rows_step(prefix, rowv);
        }
        let row = &rows[i];
        let cells = row.len();
        proof {
            assert(rowv.len() == rows@[i as int]@.len());
        }
        if cells > 3 {
            if cells < 7 {
                proof {
                    assert(rows_body(all)[i - 1] == rowv);
                    lemma_data_rows_contains(rows_body(all), i - 1);
                    let data = spec_data_rows(rows_body(all));
                    let k = choose|k: int| 0 <= k < data.len() && #[trigger] data[k] == rowv;
                    assert(!row_ok(data[k]));
                }
                return Err(BookingError::MalformedRecord);
            }
            let t1 = split_ws(row[1].as_str());
            let t2 = split_ws(row[2].as_str());
            proof {
                assert(rows@[i as int]@[1]@ == rowv[1]);
                assert(rows@[i as int]@[2]@ == rowv[2]);
            }
            if t1.is_empty() || t2.is_empty() {
                proof {
                    assert(rows_body(all)[i - 1] == rowv);
                    lemma_data_rows_contains(rows_body(all), i - 1);
                    let data = spec_data_rows(rows_body(all));
                    let k = choose|k: int| 0 <= k < data.len() && #[trigger] data[k] == rowv;
                    assert(!row_ok(data[k]));
                }
                return Err(BookingError::MalformedRecord);
            }
            proof {
                assert(row_ok(rowv));
            }
            let mut time = t1[t1.len() - 1].clone();
            time.append(" - ");
            time.append(t2[t2.len() - 1].as_str());
            let record = FetchTask::new(t1[0].clone(), time, row[5].clone(), row[6].clone());
            proof {
                assert(rows@[i as int]@[5]@ == rowv[5]);
                assert(rows@[i as int]@[6]@ == rowv[6]);
                assert(record.deep_view().time =~= row_record(rowv).time);
                assert(record.deep_view() == row_record(rowv));
            }
            out.push(record);
        }
        i += 1;
    }
    proof {
        assert(all.subrange(1, n as int) =~= rows_body(all));
        assert(records_of_rows(out.deep_view(), all));
    }
    Ok(out)
}

/// Read every booking record out of the raw bookings page: locate the table
/// carrying the fixed record-table id, then parse its rows;
/// `RecordTableMissing` when the page holds no such table.
pub fn parse_booking_page(html: &str) -> (r: Result<Vec<FetchTask>, BookingError>)
    ensures
        match booking_rows_of(html@, record_table_id()) {
            None => r == Err::<Vec<FetchTask>, BookingError>(BookingError::RecordTableMissing),
            Some(rows) => match r {
                Ok(v) => records_of_rows(v.deep_view(), rows),
                Err(e) => e == BookingError::MalformedRecord && has_malformed_row(rows),
            },
        },
{
    let rows = match record_table_rows(html, "main_gvRecord") {
        Some(rows) => rows,
        None => {
            return Err(BookingError::RecordTableMissing);
        },
    };
    parse_record_rows(&rows)
}

} // verus!
