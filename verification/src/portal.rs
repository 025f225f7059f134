//! The folder chosen in the desktop portal's picker: the portal answers with
//! `file:` URIs, and the chosen folder is the local path of the first one.

use vstd::prelude::*;

use crate::message::opt_str_view;

verus! {

/// The local path that the `url` crate reads out of a `file:` URI
/// (`Url::parse` then `Url::to_file_path`, as text); `None` when the text is
/// not a URL or does not name a local file.
pub uninterp spec fn uri_local_path(uri: Seq<char>) -> Option<Seq<char>>;

/// Reads the local path out of a URI with `url::Url::parse` and
/// `Url::to_file_path`, then `Path::to_string_lossy`.
/// The path is a function of the URI text alone.  On Unix, `to_file_path`
/// builds the path by writing `/` before each path segment, and a parsed URL
/// with segments has at least one, so a path starts with `/`.  Which URIs are
/// accepted and how they are percent-decoded is not spelled out.
#[verifier::external_body]
pub(crate) fn local_path_of_uri(uri: &str) -> (r: Option<String>)
    ensures
        opt_str_view(r) == uri_local_path(uri@),
        r matches Some(p) ==> p@.len() > 0 && p@[0] == '/',
{
    let url = url::Url::parse(uri).ok()?;
    let path = url.to_file_path().ok()?;
    Some(path.to_string_lossy().into_owned())
}

/// The folder chosen in the portal's picker, from the URIs it answered with:
/// the local path of the first URI; `None` when there is none or it is not a
/// local file.
pub fn picked_folder(uris: &Vec<String>) -> (r: Option<String>)
    ensures
        uris@.len() == 0 ==> r is None,
        uris@.len() > 0 ==> opt_str_view(r) == uri_local_path(uris@[0]@),
        r matches Some(p) ==> p@.len() > 0 && p@[0] == '/',
{
    if uris.len() == 0 {
        None
    } else {
        local_path_of_uri(uris[0].as_str())
    }
}

} // verus!
