use vstd::prelude::*;
use crate::language::FunctionDoc;
use crate::text::{append_chars, chars_of, decimal, decimal_of};

verus! {

/// A completion suggestion; the enrichment fields are present only when
/// documentation was found.
pub struct CompletionCandidate {
    pub label: String,
    pub detail: Option<String>,
    pub documentation: Option<String>,
    pub insert_text: Option<String>,
}

/// The views of a sequence of strings.
pub open spec fn views(v: Seq<String>) -> Seq<Seq<char>> {
    v.map_values(|s: String| s@)
}

/// The parts joined by `", "`.
pub open spec fn joined(parts: Seq<Seq<char>>) -> Seq<char>
    decreases parts.len(),
{
    if parts.len() == 0 {
        Seq::empty()
    } else if parts.len() == 1 {
        parts[0]
    } else {
        joined(parts.drop_last()) + seq![',', ' '] + parts.last()
    }
}

/// The snippet placeholder numbered `i` with `arg` as its default text:
/// `${i:arg}`.
pub open spec fn placeholder(i: nat, arg: Seq<char>) -> Seq<char> {
    seq!['$', '{'] + decimal_of(i) + seq![':'] + arg + seq!['}']
}

/// One placeholder per argument, numbered from one in declaration order.
pub open spec fn placeholders(args: Seq<Seq<char>>) -> Seq<Seq<char>> {
    Seq::new(args.len(), |i: int| placeholder((i + 1) as nat, args[i]))
}

/// Insertion text for a call: `name(${1:a}, ${2:b})`.
pub open spec fn snippet_of(name: Seq<char>, args: Seq<Seq<char>>) -> Seq<char> {
    name + seq!['('] + joined(placeholders(args)) + seq![')']
}

/// A signature as text: `name(a, b)`.
pub open spec fn signature_text(name: Seq<char>, args: Seq<Seq<char>>) -> Seq<char> {
    name + seq!['('] + joined(args) + seq![')']
}

/// The candidate for the member `name` with the documentation found for it.
pub open spec fn candidate_matches(
    c: CompletionCandidate,
    name: Seq<char>,
    doc: Option<FunctionDoc>,
) -> bool {
    &&& c.label@ == name
    &&& match doc {
        Some(d) => {
            &&& c.detail matches Some(x) && x@ == signature_text(
                d.signature.name@,
                views(d.signature.args@),
            )
            &&& c.documentation matches Some(x) && x@ == d.description@
            &&& c.insert_text matches Some(x) && x@ == snippet_of(name, views(d.signature.args@))
        },
        None => c.detail is None && c.documentation is None && c.insert_text is None,
    }
}

/// One candidate per member, in the order of the members.
pub open spec fn candidates_match(
    cs: Seq<CompletionCandidate>,
    names: Seq<String>,
    docs: Seq<Option<FunctionDoc>>,
) -> bool {
    &&& cs.len() == names.len() == docs.len()
    &&& forall|i: int| 0 <= i < cs.len() ==> candidate_matches(#[trigger] cs[i], names[i]@, docs[i])
}

/// Joins the parts with `", "`.
pub fn join_with_commas(parts: &Vec<String>) -> (r: String)
    ensures
        r@ == joined(views(parts@)),
{
    let mut s = String::new();
    let mut i: usize = 0;
    let sep: Vec<char> = vec![',', ' '];
    while i < parts.len()
        invariant
            i <= parts@.len(),
            sep@ == seq![',', ' '],
            s@ == joined(views(parts@.subrange(0, i as int))),
        decreases parts@.len() - i,
    {
        if i > 0 {
            append_chars(&mut s, &sep);
        }
        let pc = chars_of(parts[i].as_str());
        append_chars(&mut s, &pc);
        proof {
            let prev = views(parts@.subrange(0, i as int));
            let next = views(parts@.subrange(0, i + 1));
            assert(next.drop_last() =~= prev);
            assert(next.last() == parts@[i as int]@);
            if i == 0 {
                assert(prev.len() == 0);
                assert(s@ =~= next[0]);
            }
        }
        i = i + 1;
    }
    proof { assert(parts@.subrange(0, parts@.len() as int) =~= parts@); }
    s
}

fn placeholder_text(i: usize, arg: &String) -> (r: String)
    ensures
        r@ == placeholder(i as nat, arg@),
{
    let mut s = String::new();
    let open: Vec<char> = vec!['$', '{'];
    append_chars(&mut s, &open);
    let n = decimal(i);
    let nc = chars_of(n.as_str());
    append_chars(&mut s, &nc);
    let colon: Vec<char> = vec![':'];
    append_chars(&mut s, &colon);
    let ac = chars_of(arg.as_str());
    append_chars(&mut s, &ac);
    let close: Vec<char> = vec!['}'];
    append_chars(&mut s, &close);
    proof {
        assert(s@ =~= placeholder(i as nat, arg@));
    }
    s
}

/// The snippet that calls `name` with a placeholder for each argument.
pub fn snippet(name: &String, args: &Vec<String>) -> (r: String)
    ensures
        r@ == snippet_of(name@, views(args@)),
{
    let mut ps: Vec<String> = Vec::new();
    let mut i: usize = 0;
    while i < args.len()
        invariant
            i <= args@.len(),
            ps@.len() == i,
            forall|j: int| 0 <= j < i ==> (#[trigger] ps@[j])@ == placeholder((j + 1) as nat, args@[j]@),
        decreases args@.len() - i,
    {
        let p = placeholder_text(i + 1, &args[i]);
        ps.push(p);
        i = i + 1;
    }
    proof { assert(views(ps@) =~= placeholders(views(args@))); }
    let body = join_with_commas(&ps);
    call_text(name, &body)
}

/// `name(body)`.
fn call_text(name: &String, body: &String) -> (r: String)
    ensures
        r@ == name@ + seq!['('] + body@ + seq![')'],
{
    let mut s = name.clone();
    let open: Vec<char> = vec!['('];
    append_chars(&mut s, &open);
    let bc = chars_of(body.as_str());
    append_chars(&mut s, &bc);
    let close: Vec<char> = vec![')'];
    append_chars(&mut s, &close);
    s
}

/// A signature as text, `name(a, b)`.
pub fn signature_string(name: &String, args: &Vec<String>) -> (r: String)
    ensures
        r@ == signature_text(name@, views(args@)),
{
    let body = join_with_commas(args);
    call_text(name, &body)
}

/// The candidate for one member: its label alone, or, with documentation,
/// also the rendered signature, the description and a call snippet.
pub fn candidate(name: &String, doc: &Option<FunctionDoc>) -> (r: CompletionCandidate)
    ensures
        candidate_matches(r, name@, *doc),
{
    match doc {
        Some(d) => CompletionCandidate {
            label: name.clone(),
            detail: Some(signature_string(&d.signature.name, &d.signature.args)),
            documentation: Some(d.description.clone()),
            insert_text: Some(snippet(name, &d.signature.args)),
        },
        None => CompletionCandidate {
            label: name.clone(),
            detail: None,
            documentation: None,
            insert_text: None,
        },
    }
}

/// The candidates for a namespace's members, given the documentation found
/// for each, in the members' order.
pub fn candidates(names: &Vec<String>, docs: &Vec<Option<FunctionDoc>>) -> (r: Vec<
    CompletionCandidate,
>)
    requires
        names@.len() == docs@.len(),
    ensures
        candidates_match(r@, names@, docs@),
{
    let mut out: Vec<CompletionCandidate> = Vec::new();
    let mut i: usize = 0;
    while i < names.len()
        invariant
            i <= names@.len() == docs@.len(),
            out@.len() == i,
            forall|j: int| 0 <= j < i ==> candidate_matches(#[trigger] out@[j], names@[j]@, docs@[j]),
        decreases names@.len() - i,
    {
        let c = candidate(&names[i], &docs[i]);
        out.push(c);
        i = i + 1;
    }
    out
}

/// How many times `c` occurs in `s`.
pub open spec fn count_char(s: Seq<char>, c: char) -> nat
    decreases s.len(),
{
    if s.len() == 0 {
        0
    } else {
        count_char(s.drop_last(), c) + if s.last() == c {
            1nat
        } else {
            0nat
        }
    }
}

proof fn lemma_count_concat(a: Seq<char>, b: Seq<char>, c: char)
    ensures
        count_char(a + b, c) == count_char(a, c) + count_char(b, c),
    decreases b.len(),
{
    if b.len() == 0 {
        assert(a + b =~= a);
    } else {
        assert((a + b).drop_last() =~= a + b.drop_last());
        lemma_count_concat(a, b.drop_last(), c);
    }
}

proof fn lemma_count_single(x: char, c: char)
    ensures
        count_char(seq![x], c) == if x == c {
            1nat
        } else {
            0nat
        },
{
    let s = seq![x];
    assert(s.drop_last() =~= Seq::<char>::empty());
    assert(s.last() == x);
    assert(count_char(s.drop_last(), c) == 0);
}

proof fn lemma_decimal_has_no_dollar(n: nat)
    ensures
        count_char(decimal_of(n), '$') == 0,
    decreases n,
{
    if n < 10 {
        lemma_count_single(crate::text::digit_char(n), '$');
    } else {
        lemma_decimal_has_no_dollar(n / 10);
        assert(decimal_of(n).drop_last() =~= decimal_of(n / 10));
    }
}

proof fn lemma_placeholder_has_one_marker(i: nat, arg: Seq<char>)
    requires
        count_char(arg, '$') == 0,
    ensures
        count_char(placeholder(i, arg), '$') == 1,
{
    let open = seq!['$', '{'];
    assert(open =~= seq!['$'] + seq!['{']);
    lemma_count_concat(seq!['$'], seq!['{'], '$');
    lemma_count_single('$', '$');
    lemma_count_single('{', '$');
    lemma_count_single(':', '$');
    lemma_count_single('}', '$');
    lemma_decimal_has_no_dollar(i);
    lemma_count_concat(open, decimal_of(i), '$');
    lemma_count_concat(open + decimal_of(i), seq![':'], '$');
    lemma_count_concat(open + decimal_of(i) + seq![':'], arg, '$');
    lemma_count_concat(open + decimal_of(i) + seq![':'] + arg, seq!['}'], '$');
}

proof fn lemma_joined_markers(parts: Seq<Seq<char>>)
    requires
        forall|k: int| 0 <= k < parts.len() ==> count_char(#[trigger] parts[k], '$') == 1,
    ensures
        count_char(joined(parts), '$') == parts.len(),
    decreases parts.len(),
{
    if parts.len() == 0 {
    } else if parts.len() == 1 {
    } else {
        let init = parts.drop_last();
        assert forall|k: int| 0 <= k < init.len() implies count_char(#[trigger] init[k], '$') == 1 by {
            assert(init[k] == parts[k]);
        }
        lemma_joined_markers(init);
        let sep = seq![',', ' '];
        assert(sep =~= seq![','] + seq![' ']);
        lemma_count_concat(seq![','], seq![' '], '$');
        lemma_count_single(',', '$');
        lemma_count_single(' ', '$');
        lemma_count_concat(joined(init), sep, '$');
        lemma_count_concat(joined(init) + sep, parts.last(), '$');
    }
}

/// When the language documents every member, completion gives exactly one
/// candidate per member, each with a non-empty signature as its detail and
/// an insertion text `member(...)` whose parenthesized part holds one `$`
/// placeholder marker per argument (argument names holding no `$`).
pub proof fn lemma_documented_candidates(
    cs: Seq<CompletionCandidate>,
    names: Seq<String>,
    docs: Seq<Option<FunctionDoc>>,
)
    requires
        candidates_match(cs, names, docs),
        forall|i: int| 0 <= i < docs.len() ==> (#[trigger] docs[i]) is Some,
        forall|i: int, j: int|
            0 <= i < docs.len() && 0 <= j < docs[i]->0.signature.args@.len() ==> count_char(
                (#[trigger] docs[i]->0.signature.args@[j])@,
                '$',
            ) == 0,
    ensures
        cs.len() == names.len(),
        forall|i: int|
            0 <= i < cs.len() ==> {
                let args = views((#[trigger] docs[i])->0.signature.args@);
                &&& cs[i].detail matches Some(d) && d@.len() > 0
                &&& cs[i].insert_text matches Some(x) && x@ == names[i]@ + seq!['('] + joined(
                    placeholders(args),
                ) + seq![')']
                &&& count_char(joined(placeholders(args)), '$') == args.len()
            },
{
    assert forall|i: int| 0 <= i < cs.len() implies {
        let args = views((#[trigger] docs[i])->0.signature.args@);
        &&& cs[i].detail matches Some(d) && d@.len() > 0
        &&& cs[i].insert_text matches Some(x) && x@ == names[i]@ + seq!['('] + joined(
            placeholders(args),
        ) + seq![')']
        &&& count_char(joined(placeholders(args)), '$') == args.len()
    } by {
        let d = docs[i]->0;
        let args = views(d.signature.args@);
        assert(candidate_matches(cs[i], names[i]@, docs[i]));
        let ps = placeholders(args);
        assert forall|k: int| 0 <= k < ps.len() implies count_char(#[trigger] ps[k], '$') == 1 by {
            assert(args[k] == d.signature.args@[k]@);
            lemma_placeholder_has_one_marker((k + 1) as nat, args[k]);
        }
        lemma_joined_markers(ps);
        let sig = signature_text(d.signature.name@, args);
        assert(sig.len() > 0);
    }
}

} // verus!
