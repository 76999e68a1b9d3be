use vstd::prelude::*;
use crate::completion::{signature_string, signature_text, views};
use crate::language::FunctionDoc;
use crate::text::{append_chars, chars_of};

verus! {

pub open spec fn fence_open() -> Seq<char> {
    seq!['`', '`', '`', '\n']
}

pub open spec fn fence_close() -> Seq<char> {
    seq!['\n', '`', '`', '`', '\n']
}

/// Documentation rendered as markdown: the signature in a fenced block,
/// then the description.
pub open spec fn rendered(d: FunctionDoc) -> Seq<char> {
    fence_open() + signature_text(d.signature.name@, views(d.signature.args@)) + fence_close()
        + d.description@
}

/// Renders documentation as markdown.
pub fn render_doc(d: &FunctionDoc) -> (r: String)
    ensures
        r@ == rendered(*d),
{
    let mut s = String::new();
    let open: Vec<char> = vec!['`', '`', '`', '\n'];
    append_chars(&mut s, &open);
    let sig = signature_string(&d.signature.name, &d.signature.args);
    let sc = chars_of(sig.as_str());
    append_chars(&mut s, &sc);
    let close: Vec<char> = vec!['\n', '`', '`', '`', '\n'];
    append_chars(&mut s, &close);
    let dc = chars_of(d.description.as_str());
    append_chars(&mut s, &dc);
    proof {
        assert(open@ =~= fence_open());
        assert(close@ =~= fence_close());
    }
    s
}

/// The hover text for the documentation found, if any.
pub fn hover_from(doc: &Option<FunctionDoc>) -> (r: Option<String>)
    ensures
        match *doc {
            Some(d) => r matches Some(h) && h@ == rendered(d),
            None => r is None,
        },
{
    match doc {
        Some(d) => Some(render_doc(d)),
        None => None,
    }
}

} // verus!
