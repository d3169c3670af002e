//! The http server: a redirect to the https site.
use vstd::prelude::*;

use crate::text::{has_prefix, replace_first, replace_first_text, starts_with};

verus! {

/// Where the http server redirects to: the configured domain with its first
/// `http://` made `https://`, and `https://` put in front if it then does not
/// start with it.
pub open spec fn redirect_target(domain: Seq<char>) -> Seq<char> {
    let d = replace_first(domain, "http://"@, "https://"@);
    if starts_with(d, "https://"@) { d } else { "https://"@ + d }
}

/// The https address that the http server redirects every request to.
pub fn https_redirect_target(domain: &str) -> (r: String)
    ensures
        r@ == redirect_target(domain@),
{
    let d = replace_first_text(domain, "http://", "https://");
    if has_prefix(d.as_str(), "https://") {
        d
    } else {
        String::from_str("https://").concat(d.as_str())
    }
}

/// The redirect always goes to an `https://` address.
pub proof fn law_redirect_is_https(domain: Seq<char>)
    ensures
        starts_with(redirect_target(domain), "https://"@),
{
    let d = replace_first(domain, "http://"@, "https://"@);
    if !starts_with(d, "https://"@) {
        assert(("https://"@ + d).take("https://"@.len() as int) =~= "https://"@);
    }
}

} // verus!
