use vstd::prelude::*;

verus! {

/// The percent-encoding of a text, as the encoder produces it.
pub uninterp spec fn enc_of(s: Seq<char>) -> Seq<char>;

/// Characters that percent-encoding passes through unchanged.
pub open spec fn is_unreserved(c: char) -> bool {
    ('0' <= c && c <= '9') || ('A' <= c && c <= 'Z') || ('a' <= c && c <= 'z') || c == '-' || c
        == '.' || c == '_' || c == '~'
}

/// Relies on urlencoding::encode: percent-encodes every byte of the UTF-8
/// form except ASCII alphanumerics and `-`, `.`, `_`, `~`, which it appends
/// unchanged; so a text made only of those characters comes back as it is.
#[verifier::external_body]
pub(crate) fn encode_component(s: &str) -> (r: String)
    ensures
        r@ == enc_of(s@),
        (forall|i: int| 0 <= i < s@.len() ==> is_unreserved(#[trigger] s@[i])) ==> r@ == s@,
{
    urlencoding::encode(s).into_owned()
}

} // verus!
