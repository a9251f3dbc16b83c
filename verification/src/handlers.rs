//! Decisions the transport handlers delegate to the engine: building the URL
//! returned after an upload, and reading the usage page's query flag.

use vstd::prelude::*;
use vstd::string::StrSliceExecFns;
use vstd::string::StringExecFns;

verus! {

/// The URL returned to a client for a paste: scheme, domain, a separating
/// slash unless the domain already ends with one, then the paste's name.
pub open spec fn url_spec(domain: Seq<char>, name: Seq<char>, https: bool) -> Seq<char> {
    let scheme = if https {
        "https://"@
    } else {
        "http://"@
    };
    let sep: Seq<char> = if domain.len() > 0 && domain.last() == '/' {
        Seq::empty()
    } else {
        seq!['/']
    };
    scheme + domain + sep + name
}

/// Build the URL under which a freshly created paste is reachable.
pub fn gen_url(domain: &str, name: &str, https: bool) -> (r: String)
    ensures
        r@ == url_spec(domain@, name@, https),
{
    let mut url = if https {
        String::from_str("https://")
    } else {
        String::from_str("http://")
    };
    let n = domain.unicode_len();
    url.append(domain);
    if n == 0 || domain.get_char(n - 1) != '/' {
        url.append("/");
        proof {
            reveal_strlit("/");
            assert("/"@ =~= seq!['/']);
        }
    }
    url.append(name);
    proof {
        assert(url@ =~= url_spec(domain@, name@, https));
    }
    url
}

/// The usage page's query: whether the page is shown because a paste was
/// looked up and not found.
#[derive(Clone, Copy, Debug, PartialEq, Eq, Structural)]
pub struct UsageQuery {
    pub not_found: bool,
}

/// The flag the usage page renders: set exactly when a not-found query
/// arrived; an absent query means a plain visit.
pub fn usage_not_found(q: Option<UsageQuery>) -> (r: bool)
    ensures
        r == match q {
            Some(u) => u.not_found,
            None => false,
        },
{
    match q {
        Some(u) => u.not_found,
        None => false,
    }
}

} // verus!
