use vstd::prelude::*;
use crate::completion::{candidates, candidates_match, CompletionCandidate};
use crate::diagnostics::{diagnostics_from, records_for, DiagnosticRecord};
use crate::hover::{hover_from, rendered};
use crate::language::{FunctionDoc, Language};
use crate::position::{offset_of, Position};
use crate::store::DocumentStore;
use crate::text::{append_chars, chars_of};
use crate::token::{extract, last_separator, lemma_token_reads_only_prefix, namespace_of, token_text};

verus! {

/// Why a request could not be served.
#[derive(Clone, Copy, Debug, PartialEq, Eq, Structural)]
pub enum RequestError {
    /// The document is not in the store.
    NotFound,
}

/// The documentation looked up for each member of `ns`, in order.
pub open spec fn member_docs<L: Language>(lang: L, ns: Seq<char>, names: Seq<String>) -> Seq<
    Option<FunctionDoc>,
> {
    Seq::new(names.len(), |i: int| lang.doc_for(ns + seq![':', ':'] + names[i]@))
}

/// What completion returns: nothing outside a qualified position, else one
/// candidate per member that the language lists for the namespace before
/// the cursor, built from the documentation of `namespace::member`.
pub open spec fn completions_for<L: Language>(
    lang: L,
    text: Seq<char>,
    position: Position,
    r: Seq<CompletionCandidate>,
) -> bool {
    match token_text(text, position) {
        Some(tok) => match namespace_of(tok) {
            Some(ns) => if ns.len() > 0 {
                candidates_match(r, lang.members_of(ns), member_docs(lang, ns, lang.members_of(ns)))
            } else {
                r.len() == 0
            },
            None => r.len() == 0,
        },
        None => r.len() == 0,
    }
}

/// Whether the token before the cursor holds a path separator.
pub open spec fn hovers_at(text: Seq<char>, position: Position) -> bool {
    token_text(text, position) matches Some(tok) && last_separator(tok) is Some
}

/// What hover returns: nothing for an unqualified token, else the rendering
/// of the documentation of the whole token, if the language has it.
pub open spec fn hover_for<L: Language>(
    lang: L,
    text: Seq<char>,
    position: Position,
    r: Option<String>,
) -> bool {
    match token_text(text, position) {
        Some(tok) => if last_separator(tok) is Some {
            match lang.doc_for(tok) {
                Some(d) => r matches Some(h) && h@ == rendered(d),
                None => r is None,
            }
        } else {
            r is None
        },
        None => r is None,
    }
}

/// Text after the cursor changes neither completion nor hover: two texts
/// that agree up to the cursor's offset, where the cursor stands in both,
/// admit the same results, and ask the language the same questions.
pub proof fn lemma_results_read_only_prefix<L: Language>(
    lang: L,
    t1: Seq<char>,
    t2: Seq<char>,
    p: Position,
    o: int,
)
    requires
        offset_of(t1, p) == Some(o),
        offset_of(t2, p) == Some(o),
        0 <= o <= t1.len(),
        o <= t2.len(),
        t1.subrange(0, o) == t2.subrange(0, o),
    ensures
        token_text(t1, p) == token_text(t2, p),
        forall|r: Seq<CompletionCandidate>|
            #[trigger] completions_for(lang, t1, p, r) == completions_for(lang, t2, p, r),
        forall|r: Option<String>| #[trigger] hover_for(lang, t1, p, r) == hover_for(lang, t2, p, r),
{
    lemma_token_reads_only_prefix(t1, t2, p, o);
}

/// `namespace::member`.
fn qualified_name(namespace: &String, member: &String) -> (r: String)
    ensures
        r@ == namespace@ + seq![':', ':'] + member@,
{
    let mut s = namespace.clone();
    let sep: Vec<char> = vec![':', ':'];
    append_chars(&mut s, &sep);
    let mc = chars_of(member.as_str());
    append_chars(&mut s, &mc);
    s
}

/// The server's state: a language capability chosen at start-up and the
/// store of open documents.
pub struct Backend<L: Language> {
    language: L,
    state: DocumentStore,
    remove_on_close: bool,
}

impl<L: Language> Backend<L> {
    /// The language the server was built with.
    pub closed spec fn language(&self) -> L {
        self.language
    }

    /// The text held for each open document.
    pub closed spec fn documents(&self) -> Map<Seq<char>, Seq<char>> {
        self.state@
    }

    /// Whether closing a document drops its entry.
    pub closed spec fn removes_on_close(&self) -> bool {
        self.remove_on_close
    }

    /// A server with no documents, which keeps a document's entry after it
    /// is closed.
    pub fn new(language: L) -> (r: Self)
        ensures
            r.documents() =~= Map::empty(),
            !r.removes_on_close(),
            r.language() == language,
    {
        Backend { language, state: DocumentStore::new(), remove_on_close: false }
    }

    /// Chooses whether closing a document drops its entry.
    pub fn set_remove_on_close(&mut self, remove: bool)
        ensures
            final(self).removes_on_close() == remove,
            final(self).language() == old(self).language(),
            final(self).documents() == old(self).documents(),
    {
        self.remove_on_close = remove;
    }

    /// Replaces the whole text of `id`.
    pub fn update(&mut self, id: String, text: &str)
        ensures
            final(self).documents() == old(self).documents().insert(id@, text@),
            final(self).removes_on_close() == old(self).removes_on_close(),
            final(self).language() == old(self).language(),
    {
        self.state.update(id, text.to_owned());
    }

    /// The current text of `id`.
    pub fn get(&self, id: &String) -> (r: Result<String, RequestError>)
        ensures
            r matches Ok(t) ==> self.documents().contains_key(id@) && t@ == self.documents()[id@],
            r matches Err(e) ==> e == RequestError::NotFound && !self.documents().contains_key(
                id@,
            ),
    {
        match self.state.get(id) {
            Some(t) => Ok(t),
            None => Err(RequestError::NotFound),
        }
    }

    /// The diagnostics for `text`: one record per error that the language
    /// reports, in its order.
    pub fn get_diagnostics(&self, text: &str) -> (r: Vec<DiagnosticRecord>)
        ensures
            records_for(r@, self.language().errors_for(text@)),
    {
        let errors = self.language.parse_errors(text);
        let r = diagnostics_from(&errors);
        proof { assert(records_for(r@, errors)); }
        r
    }

    /// The completions at `position` in `text`: the members of the namespace
    /// before the cursor, each documented where the language knows it.
    pub fn get_completions(&self, text: &str, position: Position) -> (r: Vec<CompletionCandidate>)
        ensures
            completions_for(self.language(), text@, position, r@),
    {
        match extract(text, position) {
            Some(token) => match token.namespace {
                Some(ns) => {
                    if ns.as_str().is_empty() {
                        return Vec::new();
                    }
                    let names = self.language.functions(ns.as_str());
                    let mut docs: Vec<Option<FunctionDoc>> = Vec::new();
                    let mut i: usize = 0;
                    while i < names.len()
                        invariant
                            i <= names@.len(),
                            docs@.len() == i,
                            forall|j: int|
                                0 <= j < i ==> #[trigger] docs@[j] == self.language.doc_for(
                                    ns@ + seq![':', ':'] + names@[j]@,
                                ),
                        decreases names@.len() - i,
                    {
                        let q = qualified_name(&ns, &names[i]);
                        docs.push(self.language.function_doc(q.as_str()));
                        i = i + 1;
                    }
                    let r = candidates(&names, &docs);
                    proof {
                        assert(docs@ =~= member_docs(self.language, ns@, names@));
                    }
                    r
                },
                None => Vec::new(),
            },
            None => Vec::new(),
        }
    }

    /// The hover text at `position` in `text`: the documentation of the
    /// whole qualified token before the cursor, if the language has it.
    pub fn get_hover_content(&self, text: &str, position: Position) -> (r: Option<String>)
        ensures
            hover_for(self.language(), text@, position, r),
    {
        match extract(text, position) {
            Some(token) => {
                if token.namespace.is_none() {
                    return None;
                }
                let doc = self.language.function_doc(token.text.as_str());
                let r = hover_from(&doc);
                r
            },
            None => None,
        }
    }

    /// A document was opened with `text`: stores it and returns its
    /// diagnostics.
    pub fn did_open(&mut self, id: String, text: &str) -> (r: Vec<DiagnosticRecord>)
        ensures
            final(self).documents() == old(self).documents().insert(id@, text@),
            final(self).removes_on_close() == old(self).removes_on_close(),
            final(self).language() == old(self).language(),
            records_for(r@, old(self).language().errors_for(text@)),
    {
        self.update(id, text);
        self.get_diagnostics(text)
    }

    /// A document now reads `text`: replaces it whole and returns its
    /// diagnostics.
    pub fn did_change(&mut self, id: String, text: &str) -> (r: Vec<DiagnosticRecord>)
        ensures
            final(self).documents() == old(self).documents().insert(id@, text@),
            final(self).removes_on_close() == old(self).removes_on_close(),
            final(self).language() == old(self).language(),
            records_for(r@, old(self).language().errors_for(text@)),
    {
        self.update(id, text);
        self.get_diagnostics(text)
    }

    /// A document was closed: returns no diagnostics, so that the editor
    /// clears those shown, and drops the entry if so configured.
    pub fn did_close(&mut self, id: &String) -> (r: Vec<DiagnosticRecord>)
        ensures
            r@.len() == 0,
            final(self).removes_on_close() == old(self).removes_on_close(),
            final(self).language() == old(self).language(),
            final(self).documents() == if old(self).removes_on_close() {
                old(self).documents().remove(id@)
            } else {
                old(self).documents()
            },
    {
        if self.remove_on_close {
            self.state.remove(id);
        }
        Vec::new()
    }

    /// The completions at `position` in the stored text of `id`.
    pub fn completion(&self, id: &String, position: Position) -> (r: Result<
        Vec<CompletionCandidate>,
        RequestError,
    >)
        ensures
            r is Err <==> !self.documents().contains_key(id@),
            r matches Ok(cs) ==> completions_for(self.language(), self.documents()[id@], position, cs@),
    {
        let text = self.get(id)?;
        Ok(self.get_completions(text.as_str(), position))
    }

    /// The hover text at `position` in the stored text of `id`.
    pub fn hover(&self, id: &String, position: Position) -> (r: Result<
        Option<String>,
        RequestError,
    >)
        ensures
            r is Err <==> !self.documents().contains_key(id@),
            r matches Ok(h) ==> hover_for(self.language(), self.documents()[id@], position, h),
    {
        let text = self.get(id)?;
        Ok(self.get_hover_content(text.as_str(), position))
    }
}

} // verus!
