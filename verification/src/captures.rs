//! Captures of a workspace's graphs as they are read back from the text of a snapshot.

use crate::complexity_report;
use crate::complexity_report::write_no_baseline_value;
use crate::json;
use crate::json::{copy_json, get, get_text, Json, JsonView};
use crate::json_text;
use crate::json_text::parse_json;
use vstd::prelude::*;
use vstd::string::*;

verus! {

/// A number of a capture: a natural number, where it is one, else as it is printed.
#[derive(Debug)]
pub enum CaptureNumber {
    Natural(u64),
    Printed(String),
}

/// A number of a capture as a mathematical value.
pub enum CaptureNumberView {
    Natural(u64),
    Printed(Seq<char>),
}

impl View for CaptureNumber {
    type V = CaptureNumberView;

    open spec fn view(&self) -> CaptureNumberView {
        match self {
            CaptureNumber::Natural(n) => CaptureNumberView::Natural(*n),
            CaptureNumber::Printed(s) => CaptureNumberView::Printed(s@),
        }
    }
}

/// The metrics of a graph as a capture holds them.
#[derive(Debug)]
pub struct NumberRow {
    pub entropy: CaptureNumber,
    pub pathway_count: CaptureNumber,
    pub redundant_path_count: CaptureNumber,
    pub artifact_writer_dispersion_count: CaptureNumber,
    pub error_shaping_dispersion_count: CaptureNumber,
    pub state_transition_dispersion_count: CaptureNumber,
    pub representation_fanout_count: CaptureNumber,
}

/// The metrics of a graph as mathematical values.
pub struct NumberRowView {
    pub entropy: CaptureNumberView,
    pub pathway_count: CaptureNumberView,
    pub redundant_path_count: CaptureNumberView,
    pub artifact_writer_dispersion_count: CaptureNumberView,
    pub error_shaping_dispersion_count: CaptureNumberView,
    pub state_transition_dispersion_count: CaptureNumberView,
    pub representation_fanout_count: CaptureNumberView,
}

impl View for NumberRow {
    type V = NumberRowView;

    open spec fn view(&self) -> NumberRowView {
        NumberRowView {
            entropy: self.entropy@,
            pathway_count: self.pathway_count@,
            redundant_path_count: self.redundant_path_count@,
            artifact_writer_dispersion_count: self.artifact_writer_dispersion_count@,
            error_shaping_dispersion_count: self.error_shaping_dispersion_count@,
            state_transition_dispersion_count: self.state_transition_dispersion_count@,
            representation_fanout_count: self.representation_fanout_count@,
        }
    }
}

/// A crate's metrics as a capture holds them.
#[derive(Debug)]
pub struct CrateRow {
    pub name: String,
    pub numbers: NumberRow,
}

impl View for CrateRow {
    type V = (Seq<char>, NumberRowView);

    open spec fn view(&self) -> (Seq<char>, NumberRowView) {
        (self.name@, self.numbers@)
    }
}

/// What a capture holds of a workspace: when it was made, and the metrics over all
/// crates and of each.
#[derive(Debug)]
pub struct CaptureNumbers {
    pub generated_at: Json,
    pub totals: NumberRow,
    pub crates: Vec<CrateRow>,
}

/// What a capture holds, as mathematical values.
pub struct CaptureNumbersView {
    pub generated_at: JsonView,
    pub totals: NumberRowView,
    pub crates: Seq<(Seq<char>, NumberRowView)>,
}

/// Some rows as mathematical values.
pub open spec fn rows(v: Seq<CrateRow>) -> Seq<(Seq<char>, NumberRowView)> {
    v.map_values(|c: CrateRow| c@)
}

impl View for CaptureNumbers {
    type V = CaptureNumbersView;

    open spec fn view(&self) -> CaptureNumbersView {
        CaptureNumbersView {
            generated_at: self.generated_at@,
            totals: self.totals@,
            crates: rows(self.crates@),
        }
    }
}

/// The number under `key`, and 0 where there is none.
pub open spec fn number_in(v: JsonView, key: Seq<char>) -> CaptureNumberView {
    match json::field(v, key) {
        Some(JsonView::Uint(n)) => CaptureNumberView::Natural(n),
        Some(JsonView::Number(s)) => CaptureNumberView::Printed(s),
        _ => CaptureNumberView::Natural(0),
    }
}

fn read_number(v: &Json, key: &str) -> (r: CaptureNumber)
    ensures
        r@ == number_in(v@, key@),
{
    match get(v, key) {
        Some(found) => match found {
            Json::Uint(n) => CaptureNumber::Natural(*n),
            Json::Number(s) => CaptureNumber::Printed(s.clone()),
            _ => CaptureNumber::Natural(0),
        },
        None => CaptureNumber::Natural(0),
    }
}

/// The metrics that an object holds.
pub open spec fn row_of(v: JsonView) -> NumberRowView {
    NumberRowView {
        entropy: number_in(v, "overall_graph_entropy_score"@),
        pathway_count: number_in(v, "pathway_count"@),
        redundant_path_count: number_in(v, "redundant_path_count"@),
        artifact_writer_dispersion_count: number_in(v, "artifact_writer_dispersion_count"@),
        error_shaping_dispersion_count: number_in(v, "error_shaping_dispersion_count"@),
        state_transition_dispersion_count: number_in(v, "state_transition_dispersion_count"@),
        representation_fanout_count: number_in(v, "representation_fanout_count"@),
    }
}

fn read_row(v: &Json) -> (r: NumberRow)
    ensures
        r@ == row_of(v@),
{
    NumberRow {
        entropy: read_number(v, "overall_graph_entropy_score"),
        pathway_count: read_number(v, "pathway_count"),
        redundant_path_count: read_number(v, "redundant_path_count"),
        artifact_writer_dispersion_count: read_number(v, "artifact_writer_dispersion_count"),
        error_shaping_dispersion_count: read_number(v, "error_shaping_dispersion_count"),
        state_transition_dispersion_count: read_number(v, "state_transition_dispersion_count"),
        representation_fanout_count: read_number(v, "representation_fanout_count"),
    }
}

/// The metrics of the crates in a list. What has no text under `crate` is left out.
pub open spec fn crate_rows(items: Seq<JsonView>) -> Seq<(Seq<char>, NumberRowView)>
    decreases items.len(),
{
    if items.len() == 0 {
        Seq::empty()
    } else {
        let before = crate_rows(items.drop_last());
        match json::text_field(items.last(), "crate"@) {
            Some(name) => before.push((name, row_of(items.last()))),
            None => before,
        }
    }
}

fn read_crate_rows(items: &Vec<Json>) -> (r: Vec<CrateRow>)
    ensures
        rows(r@) == crate_rows(json::items_view(items@)),
{
    let ghost all = json::items_view(items@);
    let mut out: Vec<CrateRow> = Vec::new();
    let mut i: usize = 0;
    assert(rows(out@) =~= crate_rows(all.take(0)));
    while i < items.len()
        invariant
            i <= items@.len(),
            all == json::items_view(items@),
            rows(out@) == crate_rows(all.take(i as int)),
        decreases items@.len() - i,
    {
        let ghost before = out@;
        proof {
            assert(all.take(i + 1).drop_last() =~= all.take(i as int));
            assert(all.take(i + 1).last() == items@[i as int]@);
        }
        match get_text(&items[i], "crate") {
            Some(name) => {
                let row = CrateRow { name: name.to_owned(), numbers: read_row(&items[i]) };
                out.push(row);
                assert(rows(out@) =~= rows(before).push(row@));
            },
            None => {},
        }
        i += 1;
    }
    assert(all.take(i as int) =~= all);
    out
}

/// What a snapshot holds.
pub open spec fn numbers_of(v: JsonView) -> CaptureNumbersView {
    CaptureNumbersView {
        generated_at: match json::field(v, "generated_at_ms"@) {
            Some(time) => time,
            None => JsonView::Null,
        },
        totals: match json::field(v, "totals"@) {
            Some(totals) => row_of(totals),
            None => row_of(JsonView::Null),
        },
        crates: match json::field(v, "crates"@) {
            Some(JsonView::Array(items)) => crate_rows(items),
            _ => Seq::empty(),
        },
    }
}

/// Reads what a snapshot holds.
pub fn capture_numbers(v: &Json) -> (r: CaptureNumbers)
    ensures
        r@ == numbers_of(v@),
{
    let generated_at = match get(v, "generated_at_ms") {
        Some(time) => copy_json(time),
        None => Json::Null,
    };
    let totals = match get(v, "totals") {
        Some(totals) => read_row(totals),
        None => read_row(&Json::Null),
    };
    let none: Vec<CrateRow> = Vec::new();
    assert(rows(none@) =~= Seq::empty());
    let crates = match get(v, "crates") {
        Some(found) => {
            proof {
                json::lemma_json_view(*found);
            }
            match found {
                Json::Array(items) => read_crate_rows(items),
                _ => none,
            }
        },
        None => none,
    };
    CaptureNumbers { generated_at, totals, crates }
}

/// Reads the text of a snapshot. There is no capture where there is no text or it is no
/// JSON.
pub fn read_capture(raw: Option<&str>) -> (r: Option<CaptureNumbers>)
    ensures
        match raw {
            Some(s) => match json_text::read(s@) {
                Some(v) => r matches Some(c) && c@ == numbers_of(v),
                None => r is None,
            },
            None => r is None,
        },
{
    match raw {
        Some(s) => match parse_json(s) {
            Some(v) => Some(capture_numbers(&v)),
            None => None,
        },
        None => None,
    }
}

/// The capture with which the current one, made at `after_ms`, is compared: what the text
/// of the latest snapshot holds. Where there is none, the report that says so.
pub fn baseline(raw: Option<&str>, after_ms: Json, now_ms: u64) -> (r: Result<CaptureNumbers, Json>)
    ensures
        match raw {
            Some(s) => match json_text::read(s@) {
                Some(v) => r matches Ok(c) && c@ == numbers_of(v),
                None => r matches Err(report) && report@ == complexity_report::no_baseline_value(
                    after_ms@,
                    now_ms,
                ),
            },
            None => r matches Err(report) && report@ == complexity_report::no_baseline_value(
                after_ms@,
                now_ms,
            ),
        },
{
    match read_capture(raw) {
        Some(c) => Ok(c),
        None => Err(write_no_baseline_value(after_ms, now_ms)),
    }
}

} // verus!
