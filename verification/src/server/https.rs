//! The https server: how it reads the uris it serves.
use vstd::prelude::*;

use crate::text::{has_prefix, replace_all, replace_all_text, starts_with};

verus! {

/// What [`parse_uri`] returns: a uri that starts with `path` has every
/// occurrence of `path` replaced by `/`; any other uri gets a leading `/` if it
/// has none.
pub open spec fn parsed_uri(uri: Seq<char>, path: Seq<char>) -> Seq<char> {
    if starts_with(uri, path) {
        replace_all(uri, path, "/"@)
    } else if starts_with(uri, "/"@) {
        uri
    } else {
        "/"@ + uri
    }
}

/// Checks a uri has a leading /, adds it if not
pub fn parse_uri(uri: String, path: String) -> (r: String)
    ensures
        r@ == parsed_uri(uri@, path@),
{
    if has_prefix(uri.as_str(), path.as_str()) {
        replace_all_text(uri.as_str(), path.as_str(), "/")
    } else if has_prefix(uri.as_str(), "/") {
        uri
    } else {
        String::from_str("/").concat(uri.as_str())
    }
}

/// Whatever the uri and the path, the parsed uri starts with `/`.
pub proof fn law_parsed_uri_has_leading_slash(uri: Seq<char>, path: Seq<char>)
    ensures
        starts_with(parsed_uri(uri, path), "/"@),
{
    reveal_strlit("/");
    let r = parsed_uri(uri, path);
    if starts_with(uri, path) {
        if path.len() == 0 {
            if uri.len() == 0 {
                assert(replace_all(uri, path, "/"@) == "/"@);
            } else {
                assert(replace_all(uri, path, "/"@) == "/"@ + seq![uri[0]] + replace_all(uri.skip(1), path, "/"@));
            }
        } else {
            assert(replace_all(uri, path, "/"@) == "/"@ + replace_all(uri.skip(path.len() as int), path, "/"@));
        }
        assert(r.take(1) =~= "/"@);
    } else if starts_with(uri, "/"@) {
    } else {
        assert(("/"@ + uri).take(1) =~= "/"@);
    }
}

} // verus!
