//! The table in which the results of a scan are shown.

use crate::scanner::{ScanResult, ScanResultView};
use crate::text::{append_decimal, append_padded, decimal_text, padded, texts};
use vstd::prelude::*;
use vstd::string::*;

verus! {

/// The width of the port column.
pub const PORT_WIDTH: usize = 10;

/// The width of the status column.
pub const STATUS_WIDTH: usize = 15;

/// The width of the banner column.
pub const BANNER_WIDTH: usize = 100;

/// A port as the table shows it: its number and the protocol.
pub open spec fn port_cell(port: u16) -> Seq<char> {
    decimal_text(port as nat) + "\\tcp"@
}

/// The status of an open port: `open`, or `open/filtered` where banners
/// were grabbed and none was found.
pub open spec fn status_cell(banner_grab: bool, banner: Option<Seq<char>>) -> Seq<char> {
    if banner_grab && banner is None {
        "open/filtered"@
    } else {
        "open"@
    }
}

/// The banner as the table shows it; a hyphen stands for none.
pub open spec fn banner_cell(banner: Option<Seq<char>>) -> Seq<char> {
    match banner {
        Some(text) => text,
        None => "-"@,
    }
}

/// A line of the table: port and status, and the banner where banners were
/// grabbed, each filled up to the width of its column, with a blank between
/// two columns.
pub open spec fn line_of(banner_grab: bool, port: Seq<char>, status: Seq<char>, banner: Seq<char>)
    -> Seq<char> {
    if banner_grab {
        padded(port, PORT_WIDTH as nat) + " "@ + padded(status, STATUS_WIDTH as nat) + " "@
            + padded(banner, BANNER_WIDTH as nat)
    } else {
        padded(port, PORT_WIDTH as nat) + " "@ + padded(status, STATUS_WIDTH as nat)
    }
}

/// The line with the column heads.
pub open spec fn head_line(banner_grab: bool) -> Seq<char> {
    line_of(banner_grab, "port"@, "status"@, "banner"@)
}

/// The rows of the table: one for each open port, in the order of the
/// results, and none for a result that is `Closed`.
pub open spec fn rows_of(banner_grab: bool, results: Seq<ScanResultView>) -> Seq<Seq<char>>
    decreases results.len(),
{
    if results.len() == 0 {
        Seq::empty()
    } else {
        match results.last() {
            ScanResultView::TcpOpen(port, banner) => rows_of(banner_grab, results.drop_last()).push(
                line_of(
                    banner_grab,
                    port_cell(port),
                    status_cell(banner_grab, banner),
                    banner_cell(banner),
                ),
            ),
            ScanResultView::Closed => rows_of(banner_grab, results.drop_last()),
        }
    }
}

/// The table of results: the column heads, then the rows.
pub open spec fn table_of(banner_grab: bool, results: Seq<ScanResultView>) -> Seq<Seq<char>> {
    seq![head_line(banner_grab)] + rows_of(banner_grab, results)
}

fn write_line(banner_grab: bool, port: &str, status: &str, banner: &str) -> (line: String)
    ensures
        line@ == line_of(banner_grab, port@, status@, banner@),
{
    let mut line = String::new();
    append_padded(&mut line, port, PORT_WIDTH);
    line.append(" ");
    append_padded(&mut line, status, STATUS_WIDTH);
    if banner_grab {
        line.append(" ");
        append_padded(&mut line, banner, BANNER_WIDTH);
    }
    assert(line@ =~= line_of(banner_grab, port@, status@, banner@));
    line
}

/// Writes the table of results, line by line.
pub fn write_table(banner_grab: bool, results: &Vec<ScanResult>) -> (lines: Vec<String>)
    ensures
        texts(lines@) == table_of(banner_grab, crate::scanner::result_views(results@)),
{
    let ghost views = crate::scanner::result_views(results@);
    let mut lines: Vec<String> = Vec::new();
    lines.push(write_line(banner_grab, "port", "status", "banner"));
    assert(texts(lines@) =~= seq![head_line(banner_grab)]);
    let mut i: usize = 0;
    assert(views.take(0) =~= Seq::<ScanResultView>::empty());
    while i < results.len()
        invariant
            i <= results@.len(),
            views == crate::scanner::result_views(results@),
            texts(lines@) == seq![head_line(banner_grab)] + rows_of(banner_grab, views.take(i as int)),
        decreases results@.len() - i,
    {
        proof {
            assert(views.take(i + 1).drop_last() =~= views.take(i as int));
            assert(views.take(i + 1).last() == results@[i as int]@);
        }
        match &results[i] {
            ScanResult::TcpOpen(port, banner) => {
                let mut cell = String::new();
                append_decimal(&mut cell, *port);
                cell.append("\\tcp");
                assert(cell@ =~= port_cell(*port));
                let line = match banner {
                    Some(text) => write_line(banner_grab, cell.as_str(), "open", text.as_str()),
                    None => if banner_grab {
                        write_line(banner_grab, cell.as_str(), "open/filtered", "-")
                    } else {
                        write_line(banner_grab, cell.as_str(), "open", "-")
                    },
                };
                let ghost before = texts(lines@);
                lines.push(line);
                assert(texts(lines@) =~= before.push(line@));
            },
            ScanResult::Closed => {},
        }
        i = i + 1;
    }
    assert(views.take(results@.len() as int) =~= views);
    lines
}

} // verus!
