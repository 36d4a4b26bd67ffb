use vstd::prelude::*;
use vstd::string::*;

verus! {

/// What stripping the comments from a source text yields: the text without
/// its `//` and `/* */` comments, or nothing where the stripper gives up.
pub uninterp spec fn stripped(source: Seq<char>) -> Option<Seq<char>>;

/// Calls `comment::rust::strip`. Its result depends on the text alone and
/// is named by [`stripped`]; an error of the stripper becomes `None`.
///
/// The stripper finds comments by character position and removes them by
/// byte position. The two agree on ASCII text, which is what is asked for
/// here; on other text the removal can split a character and panic.
#[verifier::external_body]
fn strip(source: &str) -> (r: Option<String>)
    requires
        is_ascii(source),
    ensures
        r matches Some(text) ==> stripped(source@) == Some(text@),
        r is None ==> stripped(source@) is None,
{
    comment::rust::strip(source).ok()
}

/// The source text of a program without its comments, ready for a parser.
/// Text that is not ASCII is refused, as is text that the stripper gives
/// up on.
pub fn strip_comments(source: &str) -> (r: Option<String>)
    ensures
        r matches Some(text) ==> is_ascii(source) && stripped(source@) == Some(text@),
        r is None ==> !is_ascii(source) || stripped(source@) is None,
{
    if source.is_ascii() {
        strip(source)
    } else {
        None
    }
}

} // verus!
