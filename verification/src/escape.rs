//! HTML escaping and unescaping through the `html_escape` crate.
use vstd::prelude::*;

verus! {

/// What `&`, `<` and `>` become in HTML text; other characters stay.
pub open spec fn text_escape(c: char) -> Seq<char> {
    if c == '&' {
        seq!['&', 'a', 'm', 'p', ';']
    } else if c == '<' {
        seq!['&', 'l', 't', ';']
    } else if c == '>' {
        seq!['&', 'g', 't', ';']
    } else {
        seq![c]
    }
}

/// `s` with every `&`, `<` and `>` replaced by its HTML entity.
pub open spec fn encoded_text(s: Seq<char>) -> Seq<char>
    decreases s.len(),
{
    if s.len() == 0 {
        Seq::empty()
    } else {
        encoded_text(s.drop_last()) + text_escape(s.last())
    }
}

/// `html_escape::encode_text`: escapes `&`, `<` and `>` and keeps every
/// other character, as its source shows.
#[verifier::external_body]
pub(crate) fn encode_text(text: &str) -> (r: String)
    ensures
        r@ == encoded_text(text@),
{
    html_escape::encode_text(text).into_owned()
}

/// What `html_escape::decode_html_entities` makes of a text: every exact
/// named or numeric character reference that ends with `;` replaced by the
/// character(s) it denotes.
pub uninterp spec fn decoded_html_entities(text: Seq<char>) -> Seq<char>;

/// `html_escape::decode_html_entities`: its result is named by
/// `decoded_html_entities`; the source shows that a text without `&`
/// comes back unchanged. The entity table itself is not stated.
#[verifier::external_body]
pub(crate) fn decode_html_entities(text: &str) -> (r: String)
    ensures
        r@ == decoded_html_entities(text@),
        !text@.contains('&') ==> r@ == text@,
{
    html_escape::decode_html_entities(text).into_owned()
}

} // verus!
