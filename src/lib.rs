//! Request-handling core of a language server: a document store, token
//! extraction at a cursor, and the diagnostics, completion and hover
//! pipelines over a pluggable language capability.

mod backend;
mod completion;
mod diagnostics;
mod hover;
mod language;
mod position;
mod store;
mod text;
mod token;

pub use backend::{
    completions_for, hover_for, hovers_at, lemma_results_read_only_prefix, member_docs, Backend,
    RequestError,
};
pub use completion::{
    candidate, candidate_matches, candidates, candidates_match, count_char, join_with_commas,
    joined, lemma_documented_candidates, placeholder, placeholders, signature_string,
    signature_text, snippet, snippet_of, views, CompletionCandidate,
};
pub use diagnostics::{
    diagnostics_from, hint_view, lemma_message_holds_callout_and_hint,
    lemma_no_errors_no_records, message, message_of, note_marker, position_of, record_matches,
    records_for, records_match, to_position, to_record, zero_based, DiagnosticRecord,
};
pub use hover::{fence_close, fence_open, hover_from, render_doc, rendered};
pub use language::{FunctionDoc, FunctionSignature, Language, Location, RawError, Severity};
pub use position::{line_end, line_start, offset, offset_of, Position};
pub use store::{documents_of, lemma_store_round_trip, DocumentStore, DocumentTable};
pub use text::{decimal, decimal_of, digit_char};
pub use token::{
    extract, find_last_separator, is_token_char, is_whitespace, last_separator,
    lemma_no_token_after_whitespace, lemma_split_on_last_separator, lemma_token_ends_at_cursor,
    lemma_token_reads_only_prefix, member_of, namespace_of, separator_at, separator_before,
    split_token, token_span, token_start, token_text, Token,
};
