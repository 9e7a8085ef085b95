//! The one outside conversion the core performs: turning a file path into a
//! `file://` URI for the locations it reports.

use vstd::prelude::*;

verus! {

/// The `file://` URL text that the URI conversion renders an accepted path
/// as. On this target the rendering is a function of the path alone, so the
/// text has a name that contracts can carry; what the text is on a given
/// path is not specified anywhere, only that it depends on the path only.
pub uninterp spec fn uri_of(path: Seq<char>) -> Seq<char>;

/// Relies on `url::Url::from_file_path`: on this target it accepts exactly
/// the absolute paths — those that begin with `/` — and renders the accepted
/// path as a percent-encoded `file://` URL, a function of the path alone,
/// named `uri_of`.
#[verifier::external_body]
pub(crate) fn uri_for_path(path: &str) -> (r: Option<String>)
    ensures
        r is Some ==> path@.len() > 0 && path@[0] == '/',
        r is None ==> !(path@.len() > 0 && path@[0] == '/'),
        r matches Some(u) ==> u@ == uri_of(path@),
{
    match url::Url::from_file_path(std::path::Path::new(path)) {
        Ok(u) => Some(u.as_str().to_string()),
        Err(()) => None,
    }
}

} // verus!
