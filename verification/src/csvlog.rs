//! Time-series log model.
//!
//! The log is a sequence of lines, each a sequence of column strings.
//! A fixed twelve-column header is written exactly once, when a row is
//! appended to an empty log; every append adds exactly one data row.
//! Rendering the lines to a file is the caller's concern.

use vstd::prelude::*;
use vstd::string::StringExecFns;

verus! {

/// Number of columns of the log.
pub const LOG_COLUMNS: usize = 12;

/// The header line, as character sequences.
pub open spec fn header_model() -> Seq<Seq<char>> {
    seq![
        "Unix Time"@,
        "Total Pool Value"@,
        "Unrealized Paper P&L"@,
        "Total Fees"@,
        "Total Value of Positions"@,
        "Total Value of Collateral"@,
        "Average Leverage At Entry"@,
        "Average Effective Leverage"@,
        "Long Trades"@,
        "Long Value"@,
        "Short Trades"@,
        "Short Value"@,
    ]
}

/// Appending one row: an empty log first receives the header.
pub open spec fn log_append(lines: Seq<Seq<Seq<char>>>, row: Seq<Seq<char>>)
    -> Seq<Seq<Seq<char>>> {
    if lines.len() == 0 {
        seq![header_model(), row]
    } else {
        lines.push(row)
    }
}

/// Appending two rows to a fresh log yields exactly one header line
/// followed by the two data lines, twelve columns each.
pub proof fn lemma_log_round_trip(
    lines: Seq<Seq<Seq<char>>>,
    row1: Seq<Seq<char>>,
    row2: Seq<Seq<char>>,
)
    requires
        lines.len() == 0,
        row1.len() == LOG_COLUMNS,
        row2.len() == LOG_COLUMNS,
    ensures
        log_append(log_append(lines, row1), row2) == seq![header_model(), row1, row2],
        log_append(log_append(lines, row1), row2).len() == 3,
        log_append(log_append(lines, row1), row2)[0] == header_model(),
        log_append(log_append(lines, row1), row2)[0].len() == LOG_COLUMNS,
        log_append(log_append(lines, row1), row2)[1].len() == LOG_COLUMNS,
        log_append(log_append(lines, row1), row2)[2].len() == LOG_COLUMNS,
{
    assert(log_append(log_append(lines, row1), row2) =~= seq![header_model(), row1, row2]);
}

/// The fixed header row.
pub fn csv_header() -> (r: Vec<String>)
    ensures
        r.deep_view() == header_model(),
        r@.len() == LOG_COLUMNS,
{
    let mut r: Vec<String> = Vec::new();
    r.push(String::from_str("Unix Time"));
    r.push(String::from_str("Total Pool Value"));
    r.push(String::from_str("Unrealized Paper P&L"));
    r.push(String::from_str("Total Fees"));
    r.push(String::from_str("Total Value of Positions"));
    r.push(String::from_str("Total Value of Collateral"));
    r.push(String::from_str("Average Leverage At Entry"));
    r.push(String::from_str("Average Effective Leverage"));
    r.push(String::from_str("Long Trades"));
    r.push(String::from_str("Long Value"));
    r.push(String::from_str("Short Trades"));
    r.push(String::from_str("Short Value"));
    proof {
        assert(r.deep_view() =~= header_model());
    }
    r
}

/// Append one twelve-column row to the log, writing the header first
/// when the log is still empty.
pub fn append_row(lines: &mut Vec<Vec<String>>, row: Vec<String>)
    requires
        row@.len() == LOG_COLUMNS,
    ensures
        final(lines).deep_view() == log_append(old(lines).deep_view(), row.deep_view()),
{
    let ghost lines0: Seq<Seq<Seq<char>>> = lines.deep_view();
    let ghost row_v: Seq<Seq<char>> = row.deep_view();
    if lines.len() == 0 {
        let header = csv_header();
        lines.push(header);
        lines.push(row);
        proof {
            assert(lines0.len() == 0);
            assert(lines.deep_view() =~= log_append(lines0, row_v));
        }
    } else {
        lines.push(row);
        proof {
            assert(lines.deep_view() =~= log_append(lines0, row_v));
        }
    }
}

} // verus!
