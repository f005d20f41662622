//! Absolute URLs, held as the text that the url crate serialises them to.
use vstd::prelude::*;

verus! {

/// An absolute URL in its serialised form.
#[derive(Clone, Debug, PartialEq, Eq)]
pub struct WebUrl {
    href: String,
}

impl View for WebUrl {
    type V = Seq<char>;

    closed spec fn view(&self) -> Seq<char> {
        self.href@
    }
}

/// The characters of an optional string.
pub open spec fn opt_view(o: Option<String>) -> Option<Seq<char>> {
    match o {
        Some(s) => Some(s@),
        None => None,
    }
}

/// The serialisation of the URL that the url crate parses from `s`; `None` where `s`
/// is no absolute URL.
pub uninterp spec fn url_href(s: Seq<char>) -> Option<Seq<char>>;

/// The domain of the URL parsed from `s`; `None` where it has none (an IP address)
/// or `s` does not parse.
pub uninterp spec fn url_domain(s: Seq<char>) -> Option<Seq<char>>;

/// The path of the URL parsed from `s`; `None` where `s` does not parse.
pub uninterp spec fn url_path(s: Seq<char>) -> Option<Seq<char>>;

/// The serialisation after the query of the URL parsed from `s` is removed.
pub uninterp spec fn url_without_query(s: Seq<char>) -> Option<Seq<char>>;

/// The serialisation after the fragment of the URL parsed from `s` is removed.
pub uninterp spec fn url_without_fragment(s: Seq<char>) -> Option<Seq<char>>;

/// The serialisation after the path of the URL parsed from `s` is set to `path`.
pub uninterp spec fn url_with_path(s: Seq<char>, path: Seq<char>) -> Option<Seq<char>>;

/// Relies on url::Url::parse and url::Url::as_str: the serialisation of the parsed URL.
#[verifier::external_body]
fn parse_href(s: &str) -> (r: Option<String>)
    ensures
        opt_view(r) == url_href(s@),
{
    url::Url::parse(s).ok().map(|u| u.as_str().to_string())
}

/// Relies on url::Url::domain, on the URL parsed from `s`.
#[verifier::external_body]
fn domain_of(s: &str) -> (r: Option<String>)
    ensures
        opt_view(r) == url_domain(s@),
{
    url::Url::parse(s).ok().and_then(|u| u.domain().map(|d| d.to_string()))
}

/// Relies on url::Url::path, on the URL parsed from `s`.
#[verifier::external_body]
fn path_of(s: &str) -> (r: Option<String>)
    ensures
        opt_view(r) == url_path(s@),
{
    url::Url::parse(s).ok().map(|u| u.path().to_string())
}

/// Relies on url::Url::set_query with `None`, on the URL parsed from `s`.
#[verifier::external_body]
fn clear_query(s: &str) -> (r: Option<String>)
    ensures
        opt_view(r) == url_without_query(s@),
{
    url::Url::parse(s).ok().map(|mut u| {
        u.set_query(None);
        u.as_str().to_string()
    })
}

/// Relies on url::Url::set_fragment with `None`, on the URL parsed from `s`.
#[verifier::external_body]
fn clear_fragment(s: &str) -> (r: Option<String>)
    ensures
        opt_view(r) == url_without_fragment(s@),
{
    url::Url::parse(s).ok().map(|mut u| {
        u.set_fragment(None);
        u.as_str().to_string()
    })
}

/// Relies on url::Url::set_path, on the URL parsed from `s`.
#[verifier::external_body]
fn replace_path(s: &str, path: &str) -> (r: Option<String>)
    ensures
        opt_view(r) == url_with_path(s@, path@),
{
    url::Url::parse(s).ok().map(|mut u| {
        u.set_path(path);
        u.as_str().to_string()
    })
}

impl WebUrl {
    /// Parses an absolute URL; `None` where `s` is none.
    pub fn parse(s: &str) -> (r: Option<WebUrl>)
        ensures
            match r {
                Some(u) => url_href(s@) == Some(u@),
                None => url_href(s@) is None,
            },
    {
        match parse_href(s) {
            Some(href) => Some(WebUrl { href }),
            None => None,
        }
    }

    /// The serialised URL.
    pub fn as_str(&self) -> (r: &str)
        ensures
            r@ == self@,
    {
        self.href.as_str()
    }

    /// A copy of this URL.
    pub fn duplicate(&self) -> (r: WebUrl)
        ensures
            r@ == self@,
    {
        WebUrl { href: self.href.clone() }
    }

    /// The URL's domain, where its host is one.
    pub fn domain(&self) -> (r: Option<String>)
        ensures
            opt_view(r) == url_domain(self@),
    {
        domain_of(self.href.as_str())
    }

    /// The URL's path.
    pub fn path(&self) -> (r: Option<String>)
        ensures
            opt_view(r) == url_path(self@),
    {
        path_of(self.href.as_str())
    }

    /// This URL without its query.
    pub fn without_query(&self) -> (r: Option<WebUrl>)
        ensures
            match r {
                Some(u) => url_without_query(self@) == Some(u@),
                None => url_without_query(self@) is None,
            },
    {
        match clear_query(self.href.as_str()) {
            Some(href) => Some(WebUrl { href }),
            None => None,
        }
    }

    /// This URL without its fragment.
    pub fn without_fragment(&self) -> (r: Option<WebUrl>)
        ensures
            match r {
                Some(u) => url_without_fragment(self@) == Some(u@),
                None => url_without_fragment(self@) is None,
            },
    {
        match clear_fragment(self.href.as_str()) {
            Some(href) => Some(WebUrl { href }),
            None => None,
        }
    }

    /// This URL with its path replaced by `path`.
    pub fn with_path(&self, path: &str) -> (r: Option<WebUrl>)
        ensures
            match r {
                Some(u) => url_with_path(self@, path@) == Some(u@),
                None => url_with_path(self@, path@) is None,
            },
    {
        match replace_path(self.href.as_str(), path) {
            Some(href) => Some(WebUrl { href }),
            None => None,
        }
    }
}

} // verus!
