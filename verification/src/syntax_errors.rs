//! Syntax errors of the parser, turned into diagnostics.

use vstd::prelude::*;
use vstd::string::*;
use crate::line_index::LineIndex;
use crate::position::{Position, Range};
use crate::text::{lemma_normalized_no_longer, normalized};
use crate::utils::{lemma_range_in_order, range_of};

verus! {

/// What the parser reports when a text does not parse. Each span is a pair of offsets,
/// start and end, into the normalized text.
#[derive(Debug, PartialEq, Eq)]
pub enum SyntaxError {
    Expected { expected: String, found: String, span: (usize, usize) },
    Unexpected { found: String, span: (usize, usize) },
    Generic { message: String, span: (usize, usize) },
}

/// The result of one parse: success, or the error that stopped it.
pub type ParseOutcome = Result<(), SyntaxError>;

/// How grave a diagnostic is.
#[derive(Clone, Copy, Debug, PartialEq, Eq, Structural)]
pub enum Severity {
    Error,
    Warning,
    Information,
    Hint,
}

/// A syntax error in uniform shape, its place still a span of offsets.
#[derive(Debug, PartialEq, Eq)]
pub struct DiagnosticRecord {
    pub message: String,
    pub severity: Severity,
    pub span: (usize, usize),
    pub source_tag: String,
}

/// A diagnostic as the editor shows it.
#[derive(Debug, PartialEq, Eq)]
pub struct Diagnostic {
    pub range: Range,
    pub message: String,
    pub severity: Severity,
    pub source: String,
}

/// A `DiagnosticRecord` with its strings as sequences of characters.
pub ghost struct DiagnosticRecordView {
    pub message: Seq<char>,
    pub severity: Severity,
    pub span: (usize, usize),
    pub source_tag: Seq<char>,
}

/// A `Diagnostic` with its strings as sequences of characters.
pub ghost struct DiagnosticView {
    pub range: Range,
    pub message: Seq<char>,
    pub severity: Severity,
    pub source: Seq<char>,
}

impl View for DiagnosticRecord {
    type V = DiagnosticRecordView;

    open spec fn view(&self) -> DiagnosticRecordView {
        DiagnosticRecordView {
            message: self.message@,
            severity: self.severity,
            span: self.span,
            source_tag: self.source_tag@,
        }
    }
}

impl View for Diagnostic {
    type V = DiagnosticView;

    open spec fn view(&self) -> DiagnosticView {
        DiagnosticView {
            range: self.range,
            message: self.message@,
            severity: self.severity,
            source: self.source@,
        }
    }
}

impl SyntaxError {
    /// The message shown for this error.
    pub open spec fn message(self) -> Seq<char> {
        match self {
            SyntaxError::Expected { expected, found, .. } => "ERROR: expected "@ + expected@
                + ", FOUND: "@ + found@,
            SyntaxError::Unexpected { found, .. } => "ERROR: unexpected "@ + found@,
            SyntaxError::Generic { message, .. } => "SYNTAX ERROR: "@ + message@,
        }
    }

    /// The name under which this kind of error is reported.
    pub open spec fn source_tag(self) -> Seq<char> {
        match self {
            SyntaxError::Expected { .. } => "Syntax Error (Expected)"@,
            SyntaxError::Unexpected { .. } => "Syntax Error (Unexpected)"@,
            SyntaxError::Generic { .. } => "Syntax Error"@,
        }
    }

    /// Where the error lies, in offsets into the normalized text.
    pub open spec fn span(self) -> (usize, usize) {
        match self {
            SyntaxError::Expected { span, .. } => span,
            SyntaxError::Unexpected { span, .. } => span,
            SyntaxError::Generic { span, .. } => span,
        }
    }

    /// This error in uniform shape.
    pub open spec fn record(self) -> DiagnosticRecordView {
        DiagnosticRecordView {
            message: self.message(),
            severity: Severity::Error,
            span: self.span(),
            source_tag: self.source_tag(),
        }
    }
}

/// The records that a parse outcome calls for: none after success, one for an error.
pub open spec fn records_for(parsed: ParseOutcome) -> Seq<DiagnosticRecordView> {
    match parsed {
        Ok(_) => Seq::empty(),
        Err(error) => seq![error.record()],
    }
}

/// The diagnostic that shows `record` in the normalized text `s`.
pub open spec fn diagnostic_in(s: Seq<char>, record: DiagnosticRecordView) -> DiagnosticView {
    DiagnosticView {
        range: range_of(s, record.span),
        message: record.message,
        severity: record.severity,
        source: record.source_tag,
    }
}

/// The diagnostics that a parse outcome calls for in `text`: one for each record, in
/// order, each with the range of its span in the normalized text.
pub open spec fn diagnostics_for(text: Seq<char>, parsed: ParseOutcome) -> Seq<DiagnosticView> {
    records_for(parsed).map_values(
        |record: DiagnosticRecordView| diagnostic_in(normalized(text), record),
    )
}

/// After a parse that succeeded there is nothing to show.
pub proof fn lemma_success_clears(text: Seq<char>, parsed: ParseOutcome)
    requires
        parsed is Ok,
    ensures
        diagnostics_for(text, parsed) == Seq::<DiagnosticView>::empty(),
{
}

/// In the empty document every diagnostic lies at line zero, column zero, whatever span
/// the parser reported.
pub proof fn lemma_empty_document(parsed: ParseOutcome, i: int)
    requires
        0 <= i < diagnostics_for(Seq::empty(), parsed).len(),
    ensures
        diagnostics_for(Seq::empty(), parsed)[i].range == (Range {
            start: Position { line: 0, character: 0 },
            end: Position { line: 0, character: 0 },
        }),
{
}

/// The range of a diagnostic starts no later than it ends, where the span that the parser
/// reported does.
pub proof fn lemma_diagnostic_range_in_order(text: Seq<char>, error: SyntaxError)
    requires
        text.len() <= usize::MAX,
        error.span().0 <= error.span().1,
    ensures
        diagnostics_for(text, Err(error)).len() == 1,
        diagnostics_for(text, Err(error))[0].range.start.at_or_before(
            diagnostics_for(text, Err(error))[0].range.end,
        ),
{
    lemma_normalized_no_longer(text);
    lemma_range_in_order(normalized(text), error.span());
}

/// The records of `records`, each by its view.
pub open spec fn record_views(records: Seq<DiagnosticRecord>) -> Seq<DiagnosticRecordView> {
    records.map_values(|record: DiagnosticRecord| record@)
}

/// The diagnostics of `diagnostics`, each by its view.
pub open spec fn diagnostic_views(diagnostics: Seq<Diagnostic>) -> Seq<DiagnosticView> {
    diagnostics.map_values(|diagnostic: Diagnostic| diagnostic@)
}

/// The record of an error that expected one thing and found another.
pub fn expected_record(expected: String, found: String, span: (usize, usize)) -> (record:
    DiagnosticRecord)
    ensures
        record@ == (SyntaxError::Expected { expected, found, span }).record(),
{
    let mut message = String::from_str("ERROR: expected ");
    message.append(expected.as_str());
    message.append(", FOUND: ");
    message.append(found.as_str());
    DiagnosticRecord {
        message,
        severity: Severity::Error,
        span,
        source_tag: String::from_str("Syntax Error (Expected)"),
    }
}

/// The record of an error that found what has no place there.
pub fn unexpected_record(found: String, span: (usize, usize)) -> (record: DiagnosticRecord)
    ensures
        record@ == (SyntaxError::Unexpected { found, span }).record(),
{
    let mut message = String::from_str("ERROR: unexpected ");
    message.append(found.as_str());
    DiagnosticRecord {
        message,
        severity: Severity::Error,
        span,
        source_tag: String::from_str("Syntax Error (Unexpected)"),
    }
}

/// The record of an error that the parser describes in its own words.
pub fn generic_record(message: String, span: (usize, usize)) -> (record: DiagnosticRecord)
    ensures
        record@ == (SyntaxError::Generic { message, span }).record(),
{
    let mut text = String::from_str("SYNTAX ERROR: ");
    text.append(message.as_str());
    DiagnosticRecord {
        message: text,
        severity: Severity::Error,
        span,
        source_tag: String::from_str("Syntax Error"),
    }
}

/// Brings a parse outcome into uniform records: none after success, and for an error one
/// record of severity `Error` with the message and the name of its kind.
pub fn normalize(parsed: ParseOutcome) -> (records: Vec<DiagnosticRecord>)
    ensures
        record_views(records@) == records_for(parsed),
        parsed is Ok ==> records@.len() == 0,
        parsed is Err ==> records@.len() == 1,
{
    let mut records: Vec<DiagnosticRecord> = Vec::new();
    match parsed {
        Ok(_) => {
        },
        Err(error) => {
            let record = match error {
                SyntaxError::Expected { expected, found, span } => expected_record(
                    expected,
                    found,
                    span,
                ),
                SyntaxError::Unexpected { found, span } => unexpected_record(found, span),
                SyntaxError::Generic { message, span } => generic_record(message, span),
            };
            records.push(record);
        },
    }
    records
}

/// The diagnostics for `text` after a parse of it ended in `parsed`. After success there
/// are none; for an error there is one, its range found in an index of the normalized
/// text that serves both ends of the span.
pub fn set_syntax_errors(text: &String, parsed: ParseOutcome) -> (diagnostics: Vec<Diagnostic>)
    ensures
        diagnostic_views(diagnostics@) == diagnostics_for(text@, parsed),
        parsed is Ok ==> diagnostics@.len() == 0,
        parsed is Err ==> diagnostics@.len() == 1,
{
    let index = LineIndex::build(text.as_str());
    let records = normalize(parsed);
    let mut diagnostics: Vec<Diagnostic> = Vec::new();
    let mut i: usize = 0;
    while i < records.len()
        invariant
            i <= records.len(),
            index.text() == normalized(text@),
            record_views(records@) == records_for(parsed),
            diagnostics@.len() == i,
            forall|k: int|
                0 <= k < i ==> (#[trigger] diagnostics@[k])@ == diagnostic_in(
                    normalized(text@),
                    records@[k]@,
                ),
        decreases records.len() - i,
    {
        let record = &records[i];
        let range = Range { start: index.locate(record.span.0), end: index.locate(record.span.1) };
        diagnostics.push(
            Diagnostic {
                range,
                message: record.message.clone(),
                severity: record.severity,
                source: record.source_tag.clone(),
            },
        );
        i += 1;
    }
    diagnostics
}

} // verus!
