use vstd::prelude::*;
use crate::language::{Location, RawError, Severity};
use crate::position::Position;
use crate::text::{append_chars, chars_of};

verus! {

/// A positioned, severity-tagged message for the editor.
pub struct DiagnosticRecord {
    pub start: Position,
    pub end: Position,
    pub message: String,
    pub severity: Severity,
}

/// The delimiter between a message and its trailing note.
pub open spec fn note_marker() -> Seq<char> {
    seq![',', ' ', 'N', 'o', 't', 'e', ':', ' ']
}

/// A message with its hint, when there is one, as a trailing note.
pub open spec fn message_of(callout: Seq<char>, hint: Option<Seq<char>>) -> Seq<char> {
    match hint {
        Some(h) => callout + note_marker() + h,
        None => callout,
    }
}

pub open spec fn zero_based(n: usize) -> u32 {
    if n == 0 {
        0
    } else if n - 1 > u32::MAX {
        u32::MAX
    } else {
        (n - 1) as u32
    }
}

/// A one-based location as a zero-based position (saturating at the ends of
/// the range of `u32`).
pub open spec fn position_of(l: Location) -> Position {
    Position { line: zero_based(l.line), character: zero_based(l.column) }
}

pub open spec fn hint_view(h: Option<String>) -> Option<Seq<char>> {
    match h {
        Some(s) => Some(s@),
        None => None,
    }
}

/// The record made from one error.
pub open spec fn record_matches(d: DiagnosticRecord, e: RawError) -> bool {
    &&& d.start == position_of(e.start)
    &&& d.end == position_of(e.end)
    &&& d.severity == e.level
    &&& d.message@ == message_of(e.callout@, hint_view(e.hint))
}

/// One record per error, in the same order.
pub open spec fn records_match(ds: Seq<DiagnosticRecord>, es: Seq<RawError>) -> bool {
    &&& ds.len() == es.len()
    &&& forall|i: int| 0 <= i < ds.len() ==> record_matches(#[trigger] ds[i], es[i])
}

/// The records for what a parser returned: none when it returned nothing.
pub open spec fn records_for(ds: Seq<DiagnosticRecord>, errors: Option<Vec<RawError>>) -> bool {
    match errors {
        Some(es) => records_match(ds, es@),
        None => ds.len() == 0,
    }
}

fn zero_based_exec(n: usize) -> (r: u32)
    ensures
        r == zero_based(n),
{
    if n == 0 {
        0
    } else if n - 1 > u32::MAX as usize {
        u32::MAX
    } else {
        (n - 1) as u32
    }
}

/// Converts a one-based location into a zero-based position.
pub fn to_position(l: Location) -> (r: Position)
    ensures
        r == position_of(l),
{
    Position { line: zero_based_exec(l.line), character: zero_based_exec(l.column) }
}

/// Joins a callout and its optional hint into one message.
pub fn message(callout: &String, hint: &Option<String>) -> (r: String)
    ensures
        r@ == message_of(callout@, hint_view(*hint)),
{
    let mut m = callout.clone();
    match hint {
        Some(h) => {
            let marker: Vec<char> = vec![',', ' ', 'N', 'o', 't', 'e', ':', ' '];
            proof { assert(marker@ =~= note_marker()); }
            append_chars(&mut m, &marker);
            let hc = chars_of(h.as_str());
            append_chars(&mut m, &hc);
        },
        None => {},
    }
    m
}

/// The record for one error.
pub fn to_record(e: &RawError) -> (r: DiagnosticRecord)
    ensures
        record_matches(r, *e),
{
    DiagnosticRecord {
        start: to_position(e.start),
        end: to_position(e.end),
        message: message(&e.callout, &e.hint),
        severity: e.level,
    }
}

/// The records for a parser's findings, one per error and in its order.
pub fn diagnostics_from(errors: &Option<Vec<RawError>>) -> (r: Vec<DiagnosticRecord>)
    ensures
        records_for(r@, *errors),
{
    let mut out: Vec<DiagnosticRecord> = Vec::new();
    match errors {
        Some(es) => {
            let mut i: usize = 0;
            while i < es.len()
                invariant
                    i <= es@.len(),
                    out@.len() == i,
                    forall|j: int| 0 <= j < i ==> record_matches(#[trigger] out@[j], es@[j]),
                decreases es@.len() - i,
            {
                let d = to_record(&es[i]);
                out.push(d);
                i = i + 1;
            }
        },
        None => {},
    }
    out
}

/// A message holds its callout, then the note delimiter and the hint when
/// there is one; without a hint it is the callout alone.
pub proof fn lemma_message_holds_callout_and_hint(callout: Seq<char>, hint: Option<Seq<char>>)
    ensures
        message_of(callout, hint).subrange(0, callout.len() as int) == callout,
        hint matches Some(h) ==> {
            let m = message_of(callout, hint);
            &&& m.len() == (callout.len() + note_marker().len()) as int + h.len()
            &&& m.subrange(callout.len() as int, (callout.len() + note_marker().len()) as int)
                == note_marker()
            &&& m.subrange((callout.len() + note_marker().len()) as int, m.len() as int) == h
        },
        hint is None ==> message_of(callout, hint) == callout,
{
    let m = message_of(callout, hint);
    assert(m.subrange(0, callout.len() as int) =~= callout);
    if let Some(h) = hint {
        assert(m.subrange(callout.len() as int, (callout.len() + note_marker().len()) as int)
            =~= note_marker());
        assert(m.subrange((callout.len() + note_marker().len()) as int, m.len() as int) =~= h);
    }
}

/// A parser that finds nothing yields no records.
pub proof fn lemma_no_errors_no_records(ds: Seq<DiagnosticRecord>, errors: Option<Vec<RawError>>)
    requires
        records_for(ds, errors),
        errors is None || errors->0@.len() == 0,
    ensures
        ds.len() == 0,
{
}

} // verus!
