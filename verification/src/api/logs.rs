//! Queries on the log of processed captchas, and what is exported of it.

use vstd::prelude::*;
use vstd::string::*;
use crate::text::{decimal_digits, push_decimal, str_eq};

verus! {

/// How many log entries a listing shows when the query names no limit.
pub const DEFAULT_LOG_LIMIT: u32 = 50;

/// How many log entries an export holds when the query names no limit.
pub const DEFAULT_EXPORT_LIMIT: u32 = 1000;

/// Which log entries to list.
#[derive(Debug, Clone)]
pub struct LogsQuery {
    pub model_id: Option<u64>,
    pub is_correct: Option<bool>,
    pub limit: Option<u32>,
    pub offset: Option<u32>,
}

/// Which log entries to export.
#[derive(Debug, Clone)]
pub struct ExportQuery {
    pub model_id: Option<u64>,
    pub limit: Option<u32>,
}

/// The text that a captcha really showed, as a user reports it.
#[derive(Debug, Clone)]
pub struct UpdateLogRequest {
    pub actual_text: Option<String>,
}

/// One log entry as an export shows it, numbers and times already as text.
pub struct ExportRow {
    pub id: u64,
    pub image_hash: String,
    pub predicted_text: Option<String>,
    pub actual_text: Option<String>,
    pub is_correct: Option<bool>,
    pub confidence: Option<String>,
    pub processing_time_ms: u32,
    pub model_id: Option<u64>,
    pub created_at: String,
}

impl LogsQuery {
    /// The number of entries to list: the query's, or 50.
    pub fn page_limit(&self) -> (limit: u32)
        ensures
            limit == (match self.limit {
                Some(limit) => limit,
                None => DEFAULT_LOG_LIMIT,
            }),
    {
        match self.limit {
            Some(limit) => limit,
            None => DEFAULT_LOG_LIMIT,
        }
    }

    /// The number of entries to skip: the query's, or none.
    pub fn page_offset(&self) -> (offset: u32)
        ensures
            offset == (match self.offset {
                Some(offset) => offset,
                None => 0,
            }),
    {
        match self.offset {
            Some(offset) => offset,
            None => 0,
        }
    }
}

impl ExportQuery {
    /// The number of entries to export: the query's, or 1000.
    pub fn row_limit(&self) -> (limit: u32)
        ensures
            limit == (match self.limit {
                Some(limit) => limit,
                None => DEFAULT_EXPORT_LIMIT,
            }),
    {
        match self.limit {
            Some(limit) => limit,
            None => DEFAULT_EXPORT_LIMIT,
        }
    }
}

/// Whether a prediction was right, once the actual text is known: it was
/// when there is a prediction and it is the actual text.
pub fn judge_prediction(actual: &Option<String>, predicted: &Option<String>) -> (verdict: Option<
    bool,
>)
    ensures
        verdict == (match *actual {
            Some(text) => Some(predicted matches Some(guess) && guess@ == text@),
            None => None,
        }),
{
    match actual {
        Some(text) => match predicted {
            Some(guess) => Some(str_eq(guess.as_str(), text.as_str())),
            None => Some(false),
        },
        None => None,
    }
}

/// The text of a field that may be absent: nothing for an absent one.
pub open spec fn optional_text(field: Option<String>) -> Seq<char> {
    match field {
        Some(text) => text@,
        None => Seq::empty(),
    }
}

/// The text of a number that may be absent: nothing for an absent one.
pub open spec fn optional_number(field: Option<u64>) -> Seq<char> {
    match field {
        Some(n) => decimal_digits(n as nat),
        None => Seq::empty(),
    }
}

/// The text of a truth value that may be absent.
pub open spec fn optional_flag(field: Option<bool>) -> Seq<char> {
    match field {
        Some(true) => "true"@,
        Some(false) => "false"@,
        None => Seq::empty(),
    }
}

/// The first line of an export, which names the columns.
pub open spec fn export_header() -> Seq<char> {
    "id,image_hash,predicted_text,actual_text,is_correct,confidence,processing_time_ms,model_id,created_at\n"@
}

/// The first fields of an export line: what was seen and what was read.
pub open spec fn export_line_reading(row: ExportRow) -> Seq<char> {
    decimal_digits(row.id as nat) + ","@ + row.image_hash@ + ","@ + optional_text(
        row.predicted_text,
    ) + ","@ + optional_text(row.actual_text) + ","@
}

/// The last fields of an export line: how the reading went.
pub open spec fn export_line_outcome(row: ExportRow) -> Seq<char> {
    optional_flag(row.is_correct) + ","@ + optional_text(row.confidence) + ","@ + decimal_digits(
        row.processing_time_ms as nat,
    ) + ","@ + optional_number(row.model_id) + ","@ + row.created_at@ + "\n"@
}

/// The line of an export for one log entry: its fields separated by
/// commas, an absent field empty, and a line feed.
pub open spec fn export_line(row: ExportRow) -> Seq<char> {
    export_line_reading(row) + export_line_outcome(row)
}

/// The lines of an export for the first `count` log entries.
pub open spec fn export_lines(rows: Seq<ExportRow>, count: int) -> Seq<char>
    decreases count,
{
    if count <= 0 {
        Seq::empty()
    } else {
        export_lines(rows, count - 1) + export_line(rows[count - 1])
    }
}

/// Appends the text of a field that may be absent.
fn push_optional_text(text: &mut String, field: &Option<String>)
    ensures
        final(text)@ == old(text)@ + optional_text(*field),
{
    match field {
        Some(value) => {
            text.append(value.as_str());
        },
        None => {
            assert(old(text)@ + Seq::<char>::empty() =~= old(text)@);
        },
    }
}

/// Appends the first fields of an export line.
fn push_export_reading(text: &mut String, row: &ExportRow)
    ensures
        final(text)@ == old(text)@ + export_line_reading(*row),
{
    push_decimal(text, row.id);
    text.append(",");
    text.append(row.image_hash.as_str());
    text.append(",");
    push_optional_text(text, &row.predicted_text);
    text.append(",");
    push_optional_text(text, &row.actual_text);
    text.append(",");
    assert(final(text)@ =~= old(text)@ + export_line_reading(*row));
}

/// Appends the text of a truth value that may be absent.
fn push_optional_flag(text: &mut String, field: Option<bool>)
    ensures
        final(text)@ == old(text)@ + optional_flag(field),
{
    match field {
        Some(true) => {
            text.append("true");
        },
        Some(false) => {
            text.append("false");
        },
        None => {
            assert(old(text)@ + Seq::<char>::empty() =~= old(text)@);
        },
    }
}

/// Appends the text of a number that may be absent.
fn push_optional_number(text: &mut String, field: Option<u64>)
    ensures
        final(text)@ == old(text)@ + optional_number(field),
{
    match field {
        Some(n) => {
            push_decimal(text, n);
        },
        None => {
            assert(old(text)@ + Seq::<char>::empty() =~= old(text)@);
        },
    }
}

/// Appends the last fields of an export line.
fn push_export_outcome(text: &mut String, row: &ExportRow)
    ensures
        final(text)@ == old(text)@ + export_line_outcome(*row),
{
    push_optional_flag(text, row.is_correct);
    text.append(",");
    push_optional_text(text, &row.confidence);
    text.append(",");
    push_decimal(text, row.processing_time_ms as u64);
    text.append(",");
    push_optional_number(text, row.model_id);
    text.append(",");
    text.append(row.created_at.as_str());
    text.append("\n");
    assert(final(text)@ =~= old(text)@ + export_line_outcome(*row));
}

/// Appends the line of an export for one log entry.
fn push_export_line(text: &mut String, row: &ExportRow)
    ensures
        final(text)@ == old(text)@ + export_line(*row),
{
    push_export_reading(text, row);
    push_export_outcome(text, row);
    assert(final(text)@ =~= old(text)@ + export_line(*row));
}

/// Export logs as CSV: the header, then one line for each entry.
pub fn export_csv(rows: &Vec<ExportRow>) -> (csv: String)
    ensures
        csv@ == export_header() + export_lines(rows@, rows@.len() as int),
{
    let mut csv = String::from_str(
        "id,image_hash,predicted_text,actual_text,is_correct,confidence,processing_time_ms,model_id,created_at\n",
    );
    let mut i: usize = 0;
    assert(csv@ =~= export_header() + export_lines(rows@, 0));
    while i < rows.len()
        invariant
            i <= rows@.len(),
            csv@ == export_header() + export_lines(rows@, i as int),
        decreases rows@.len() - i,
    {
        push_export_line(&mut csv, &rows[i]);
        i = i + 1;
        assert(csv@ =~= export_header() + export_lines(rows@, i as int));
    }
    csv
}

} // verus!
