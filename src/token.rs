use vstd::prelude::*;
use crate::position::{offset, offset_of, Position};
use crate::text::{chars_of, substring};

verus! {

/// Characters that may stand in a token: ASCII letters and digits, the
/// underscore, and the colon of the `::` path separator. Letters and digits
/// outside ASCII end a token. A colon is taken on its own too, so that a
/// path being typed (`math:`) still reads as one token; the namespace split
/// looks only for the `::` pair.
pub open spec fn is_token_char(c: char) -> bool {
    ('a' <= c && c <= 'z') || ('A' <= c && c <= 'Z') || ('0' <= c && c <= '9') || c == '_'
        || c == ':'
}

pub open spec fn is_whitespace(c: char) -> bool {
    c == ' ' || c == '\t' || c == '\n' || c == '\r'
}

/// Where the backward scan from offset `o` stops: the smallest index from
/// which every character up to `o` is a token character.
pub open spec fn token_start(t: Seq<char>, o: int) -> int
    decreases o,
{
    if o <= 0 || o > t.len() {
        o
    } else if is_token_char(t[o - 1]) {
        token_start(t, o - 1)
    } else {
        o
    }
}

/// The span `(start, end)` of the token that ends at the cursor, if there is
/// a non-empty one.
pub open spec fn token_span(t: Seq<char>, p: Position) -> Option<(int, int)> {
    match offset_of(t, p) {
        Some(o) => if token_start(t, o) < o {
            Some((token_start(t, o), o))
        } else {
            None
        },
        None => None,
    }
}

/// Index of the last `::` in `tok` that ends at or before index `i`.
pub open spec fn separator_before(tok: Seq<char>, i: int) -> Option<int>
    decreases i,
{
    if i < 2 || i > tok.len() {
        None
    } else if tok[i - 2] == ':' && tok[i - 1] == ':' {
        Some(i - 2)
    } else {
        separator_before(tok, i - 1)
    }
}

/// Index of the last `::` in `tok`.
pub open spec fn last_separator(tok: Seq<char>) -> Option<int> {
    separator_before(tok, tok.len() as int)
}

/// What stands before the last separator, if there is one.
pub open spec fn namespace_of(tok: Seq<char>) -> Option<Seq<char>> {
    match last_separator(tok) {
        Some(i) => Some(tok.subrange(0, i)),
        None => None,
    }
}

/// What stands after the last separator, or the whole token.
pub open spec fn member_of(tok: Seq<char>) -> Seq<char> {
    match last_separator(tok) {
        Some(i) => tok.subrange(i + 2, tok.len() as int),
        None => tok,
    }
}

/// The raw token text under the cursor, if any.
pub open spec fn token_text(t: Seq<char>, p: Position) -> Option<Seq<char>> {
    match token_span(t, p) {
        Some(span) => Some(t.subrange(span.0, span.1)),
        None => None,
    }
}

/// A token found before the cursor, with its namespace and member parts.
pub struct Token {
    pub text: String,
    pub namespace: Option<String>,
    pub member: String,
}

impl Token {
    pub open spec fn wf_for(self, tok: Seq<char>) -> bool {
        &&& self.text@ == tok
        &&& self.member@ == member_of(tok)
        &&& match namespace_of(tok) {
            Some(ns) => self.namespace matches Some(n) && n@ == ns,
            None => self.namespace is None,
        }
    }
}

fn scan_start(t: &Vec<char>, o: usize) -> (s: usize)
    requires
        o <= t@.len(),
    ensures
        s == token_start(t@, o as int),
        s <= o,
{
    let mut s: usize = o;
    while s > 0 && is_token_char_exec(t[s - 1])
        invariant
            s <= o <= t@.len(),
            token_start(t@, s as int) == token_start(t@, o as int),
        decreases s,
    {
        s = s - 1;
    }
    s
}

fn is_token_char_exec(c: char) -> (r: bool)
    ensures
        r == is_token_char(c),
{
    ('a' <= c && c <= 'z') || ('A' <= c && c <= 'Z') || ('0' <= c && c <= '9') || c == '_'
        || c == ':'
}

/// Finds the last `::` of a token.
pub fn find_last_separator(tok: &Vec<char>) -> (r: Option<usize>)
    ensures
        r matches Some(i) ==> last_separator(tok@) == Some(i as int),
        r is None ==> last_separator(tok@) is None,
{
    let mut i: usize = tok.len();
    while i >= 2
        invariant
            i <= tok@.len(),
            separator_before(tok@, i as int) == last_separator(tok@),
        decreases i,
    {
        if tok[i - 2] == ':' && tok[i - 1] == ':' {
            return Some(i - 2);
        }
        i = i - 1;
    }
    None
}

proof fn lemma_separator_bounds(tok: Seq<char>, i: int)
    ensures
        separator_before(tok, i) matches Some(j) ==> 0 <= j && j + 2 <= i && i <= tok.len(),
    decreases i,
{
    if i >= 2 && i <= tok.len() && !(tok[i - 2] == ':' && tok[i - 1] == ':') {
        lemma_separator_bounds(tok, i - 1);
    }
}

/// The characters of `v` from `a` up to, but not including, `b`.
fn sub_chars(v: &Vec<char>, a: usize, b: usize) -> (r: Vec<char>)
    requires
        a <= b <= v@.len(),
    ensures
        r@ == v@.subrange(a as int, b as int),
{
    let mut r: Vec<char> = Vec::new();
    let mut i: usize = a;
    while i < b
        invariant
            a <= i <= b <= v@.len(),
            r@ == v@.subrange(a as int, i as int),
        decreases b - i,
    {
        r.push(v[i]);
        i = i + 1;
        proof { assert(v@.subrange(a as int, i as int) =~= v@.subrange(a as int, i - 1).push(v@[i - 1])); }
    }
    r
}

/// Splits a raw token on its last `::`.
pub fn split_token(tok: &Vec<char>) -> (r: Token)
    ensures
        r.wf_for(tok@),
{
    let text = substring(tok, 0, tok.len());
    proof {
        assert(tok@.subrange(0, tok@.len() as int) =~= tok@);
        lemma_separator_bounds(tok@, tok@.len() as int);
    }
    match find_last_separator(tok) {
        Some(i) => {
            let namespace = substring(tok, 0, i);
            let member = substring(tok, i + 2, tok.len());
            Token { text, namespace: Some(namespace), member }
        },
        None => {
            let member = substring(tok, 0, tok.len());
            Token { text, namespace: None, member }
        },
    }
}

/// The token that ends at the cursor: the characters before it back to the
/// first one that cannot stand in a token, split on the last `::`. Nothing
/// after the cursor is read.
pub fn extract(text: &str, position: Position) -> (r: Option<Token>)
    ensures
        match token_text(text@, position) {
            Some(tok) => r matches Some(k) && k.wf_for(tok),
            None => r is None,
        },
{
    let t = chars_of(text);
    match offset(&t, position) {
        None => None,
        Some(o) => {
            let s = scan_start(&t, o);
            if s < o {
                let raw = sub_chars(&t, s, o);
                Some(split_token(&raw))
            } else {
                None
            }
        },
    }
}

proof fn lemma_scan_chars(t: Seq<char>, o: int)
    requires
        0 <= o <= t.len(),
    ensures
        0 <= token_start(t, o) <= o,
        forall|i: int| token_start(t, o) <= i < o ==> is_token_char(#[trigger] t[i]),
    decreases o,
{
    if o > 0 && is_token_char(t[o - 1]) {
        lemma_scan_chars(t, o - 1);
    }
}

proof fn lemma_scan_reads_prefix(t1: Seq<char>, t2: Seq<char>, o: int, n: int)
    requires
        0 <= o <= n <= t1.len(),
        n <= t2.len(),
        t1.subrange(0, n) == t2.subrange(0, n),
    ensures
        token_start(t1, o) == token_start(t2, o),
    decreases o,
{
    if o > 0 {
        assert(t1[o - 1] == t1.subrange(0, n)[o - 1]);
        assert(t2[o - 1] == t2.subrange(0, n)[o - 1]);
        lemma_scan_reads_prefix(t1, t2, o - 1, n);
    }
}

/// The token never reaches past the cursor: its span ends exactly at the
/// cursor's offset, the token is the text of that span, and every character
/// in it is a token character.
pub proof fn lemma_token_ends_at_cursor(t: Seq<char>, p: Position)
    requires
        token_span(t, p) is Some,
    ensures
        token_span(t, p) matches Some((start, end)) && offset_of(t, p) == Some(end) && 0 <= start
            < end <= t.len() && token_text(t, p) == Some(t.subrange(start, end)) && (forall|i: int|
            start <= i < end ==> is_token_char(#[trigger] t[i])),
{
    let o = offset_of(t, p)->0;
    if o <= t.len() {
        lemma_scan_chars(t, o);
    } else {
        assert(token_start(t, o) == o);
    }
}

pub open spec fn separator_at(tok: Seq<char>, k: int) -> bool {
    0 <= k && k + 1 < tok.len() && tok[k] == ':' && tok[k + 1] == ':'
}

proof fn lemma_separator_before_is_last(tok: Seq<char>, i: int)
    requires
        0 <= i <= tok.len(),
    ensures
        separator_before(tok, i) matches Some(j) ==> separator_at(tok, j) && j + 2 <= i && (
        forall|k: int| j < k && k + 2 <= i ==> !#[trigger] separator_at(tok, k)),
        separator_before(tok, i) is None ==> forall|k: int|
            0 <= k && k + 2 <= i ==> !#[trigger] separator_at(tok, k),
    decreases i,
{
    if i >= 2 && !(tok[i - 2] == ':' && tok[i - 1] == ':') {
        lemma_separator_before_is_last(tok, i - 1);
    }
}

/// A token with a namespace part is that namespace, `::` and the member;
/// the member holds no `::` of its own, the split being on the last one.
pub proof fn lemma_split_on_last_separator(tok: Seq<char>)
    ensures
        namespace_of(tok) matches Some(ns) ==> tok == ns + seq![':', ':'] + member_of(tok),
        forall|k: int| !#[trigger] separator_at(member_of(tok), k),
        namespace_of(tok) is None ==> member_of(tok) == tok,
{
    lemma_separator_before_is_last(tok, tok.len() as int);
    if let Some(j) = last_separator(tok) {
        let m = member_of(tok);
        assert(tok =~= tok.subrange(0, j) + seq![':', ':'] + m);
        assert forall|k: int| !#[trigger] separator_at(m, k) by {
            if separator_at(m, k) {
                assert(m[k] == tok[j + 2 + k] && m[k + 1] == tok[j + 3 + k]);
                assert(separator_at(tok, j + 2 + k));
            }
        }
    }
}

/// Only the text before the cursor decides the token: two texts that agree
/// up to the cursor's offset, where the cursor stands in both, give the same
/// token.
pub proof fn lemma_token_reads_only_prefix(t1: Seq<char>, t2: Seq<char>, p: Position, o: int)
    requires
        offset_of(t1, p) == Some(o),
        offset_of(t2, p) == Some(o),
        0 <= o <= t1.len(),
        o <= t2.len(),
        t1.subrange(0, o) == t2.subrange(0, o),
    ensures
        token_text(t1, p) == token_text(t2, p),
{
    lemma_scan_reads_prefix(t1, t2, o, o);
    lemma_scan_chars(t1, o);
    let s = token_start(t1, o);
    assert(t1.subrange(s, o) =~= t1.subrange(0, o).subrange(s, o));
    assert(t2.subrange(s, o) =~= t2.subrange(0, o).subrange(s, o));
}

/// A cursor that follows whitespace, or stands at the start of the text,
/// has no token.
pub proof fn lemma_no_token_after_whitespace(t: Seq<char>, p: Position, o: int)
    requires
        offset_of(t, p) == Some(o),
        0 <= o <= t.len(),
        o == 0 || is_whitespace(t[o - 1]),
    ensures
        token_text(t, p) is None,
{
}

} // verus!
