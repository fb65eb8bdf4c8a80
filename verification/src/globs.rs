use vstd::prelude::*;

verus! {

/// Why a text is no glob pattern, and at which of its characters that shows.
#[derive(Debug, Clone, PartialEq, Eq)]
pub struct GlobError {
    pub position: usize,
    pub reason: String,
}

impl View for GlobError {
    type V = (nat, Seq<char>);

    open spec fn view(&self) -> (nat, Seq<char>) {
        (self.position as nat, self.reason@)
    }
}

/// `text` holds a character that is more than itself in a pattern, and that can be misused.
pub open spec fn may_be_invalid(text: Seq<char>) -> bool {
    text.contains('*') || text.contains('[')
}

/// `text` starts with more stars than any wildcard has.
pub open spec fn starts_with_three_stars(text: Seq<char>) -> bool {
    text.len() >= 3 && text[0] == '*' && text[1] == '*' && text[2] == '*'
}

/// The position and the reason with which `glob::Pattern::new` turns `text` down, or
/// nothing where it compiles `text`.
pub uninterp spec fn glob_error(text: Seq<char>) -> Option<(nat, Seq<char>)>;

/// Calls `glob::Pattern::new`.
///
/// Claimed of it: whether a text compiles, and the error that it gives otherwise, are fixed
/// by the text; a text without `*` and without `[` compiles; and a text that starts with three
/// `*` does not. What else makes a pattern valid is left to the `glob` crate, which goes by the
/// path separator of the platform. That is the one of Unix, which this library is for.
#[verifier::external_body]
pub(crate) fn check_glob(text: &str) -> (checked: Result<(), GlobError>)
    ensures
        checked is Ok <==> glob_error(text@) is None,
        checked matches Err(error) ==> glob_error(text@) == Some(error@),
        checked is Err ==> may_be_invalid(text@),
        checked is Ok ==> !starts_with_three_stars(text@),
{
    match glob::Pattern::new(text) {
        Ok(_) => Ok(()),
        Err(error) => Err(GlobError { position: error.pos, reason: error.msg.to_string() }),
    }
}

} // verus!
