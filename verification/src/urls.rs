//! URL resolution, through the `url` crate.
//!
//! The engine treats a URL as its serialization: a plain string.  What only
//! the URL standard can compute - resolving a candidate suffix against a
//! base - is named by [`url_join_of`] and performed by [`resolve_url`]; the
//! rest of the library states its contracts over that name.

use vstd::prelude::*;

verus! {

/// The serialization of `rel` resolved against the absolute URL `base`, or
/// nothing when `base` does not parse as an absolute URL or `rel` cannot be
/// resolved against it.  This is the resolution of the URL standard: a pure
/// function of the two strings.
pub uninterp spec fn url_join_of(base: Seq<char>, rel: Seq<char>) -> Option<Seq<char>>;

/// Relies on `url::Url::parse`, `url::Url::join` and `url::Url::as_str`:
/// parses `base` as an absolute URL, resolves `rel` against it, and hands
/// back the resulting URL's serialization.  The result depends on the two
/// arguments alone.
#[verifier::external_body]
pub(crate) fn resolve_url(base: &str, rel: &str) -> (r: Option<String>)
    ensures
        r.deep_view() == url_join_of(base@, rel@),
{
    match url::Url::parse(base) {
        Ok(b) => match b.join(rel) {
            Ok(u) => Some(String::from(u.as_str())),
            Err(_) => None,
        },
        Err(_) => None,
    }
}

} // verus!
