use vstd::prelude::*;
use std::collections::hash_map::RandomState;

verus! {

#[verifier::external_type_specification]
#[verifier::external_body]
#[verifier::reject_recursive_types(K)]
#[verifier::reject_recursive_types(V)]
#[verifier::reject_recursive_types(S)]
pub struct ExSizedHashMap<K, V, S, const VEC_LIMIT_UPPER: usize>(
    halfbrown::SizedHashMap<K, V, S, VEC_LIMIT_UPPER>,
);

/// The map that holds the documents.
pub type DocumentTable = halfbrown::HashMap<String, String, RandomState>;

/// The text held for each document identifier.
pub uninterp spec fn documents_of(m: DocumentTable) -> Map<Seq<char>, Seq<char>>;

/// Relies on halfbrown's `SizedHashMap::default`: a map with no entries.
#[verifier::external_body]
fn table_new() -> (r: DocumentTable)
    ensures
        documents_of(r) =~= Map::empty(),
{
    halfbrown::HashMap::default()
}

/// Relies on halfbrown's `SizedHashMap::insert`: the key then maps to the
/// value, every other key is kept.
#[verifier::external_body]
fn table_insert(m: &mut DocumentTable, k: String, v: String)
    ensures
        documents_of(*final(m)) == documents_of(*old(m)).insert(k@, v@),
{
    m.insert(k, v);
}

/// Relies on halfbrown's `SizedHashMap::get`: the value held for the key,
/// if any.
#[verifier::external_body]
fn table_get(m: &DocumentTable, k: &String) -> (r: Option<String>)
    ensures
        r matches Some(v) ==> documents_of(*m).contains_key(k@) && v@ == documents_of(*m)[k@],
        r is None ==> !documents_of(*m).contains_key(k@),
{
    m.get(k).cloned()
}

/// Relies on halfbrown's `SizedHashMap::remove`: the key no longer maps to
/// anything, every other key is kept.
#[verifier::external_body]
fn table_remove(m: &mut DocumentTable, k: &String)
    ensures
        documents_of(*final(m)) == documents_of(*old(m)).remove(k@),
{
    m.remove(k);
}

/// The latest full text of each open document, keyed by its identifier.
/// A change replaces a document's text whole; there is at most one entry
/// per identifier.
pub struct DocumentStore {
    table: DocumentTable,
}

impl View for DocumentStore {
    type V = Map<Seq<char>, Seq<char>>;

    closed spec fn view(&self) -> Map<Seq<char>, Seq<char>> {
        documents_of(self.table)
    }
}

impl DocumentStore {
    /// A store with no documents.
    pub fn new() -> (r: Self)
        ensures
            r@ == Map::<Seq<char>, Seq<char>>::empty(),
    {
        DocumentStore { table: table_new() }
    }

    /// Sets the text of `id`, whether or not it was open.
    pub fn open(&mut self, id: String, text: String)
        ensures
            final(self)@ == old(self)@.insert(id@, text@),
    {
        table_insert(&mut self.table, id, text);
    }

    /// Replaces the text of `id`; the same operation as `open`.
    pub fn update(&mut self, id: String, text: String)
        ensures
            final(self)@ == old(self)@.insert(id@, text@),
    {
        self.open(id, text);
    }

    /// The current text of `id`, if it is held.
    pub fn get(&self, id: &String) -> (r: Option<String>)
        ensures
            r matches Some(t) ==> self@.contains_key(id@) && t@ == self@[id@],
            r is None ==> !self@.contains_key(id@),
    {
        table_get(&self.table, id)
    }

    /// Drops the entry of `id`.
    pub fn remove(&mut self, id: &String)
        ensures
            final(self)@ == old(self)@.remove(id@),
    {
        table_remove(&mut self.table, id);
    }
}

/// Opening a document with one text and then updating it with another
/// leaves the second text, whole: the first is gone and nothing is merged.
/// Other documents are untouched.
pub proof fn lemma_store_round_trip(
    docs: Map<Seq<char>, Seq<char>>,
    id: Seq<char>,
    first: Seq<char>,
    second: Seq<char>,
)
    ensures
        docs.insert(id, first).insert(id, second).contains_key(id),
        docs.insert(id, first).insert(id, second)[id] == second,
        docs.insert(id, first).insert(id, second) == docs.insert(id, second),
{
    assert(docs.insert(id, first).insert(id, second) =~= docs.insert(id, second));
}

} // verus!
