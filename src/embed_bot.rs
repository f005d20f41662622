//! The scraper registry and the decisions taken for each request.
use crate::scraper::imgur::{imgur_suitable, ImgurAPI};
use crate::scraper::ninegag::ninegag_suitable;
use crate::scraper::reddit::reddit_suitable;
use crate::scraper::twitter::twitter_suitable;
use crate::scraper::{ninegag, reddit, scrape_error_text, twitter, ScrapeError};
use crate::settings::{EmbedBehaviour, EmbedBehaviours};
use crate::text::{lines_of, split_lines};
use crate::web_url::{url_href, url_without_fragment, WebUrl};
use vstd::prelude::*;
use vstd::string::StringExecFns;

verus! {

/// One registered scraper.
#[derive(Clone, Debug, PartialEq, Eq)]
pub enum Scraper {
    Reddit(reddit::Api),
    NineGag(ninegag::Api),
    Twitter(twitter::Api),
    Imgur(ImgurAPI),
}

impl Scraper {
    /// Whether this scraper handles `url`: its domain is the scraper's site.
    pub open spec fn suitable(&self, url: Seq<char>) -> bool {
        match self {
            Scraper::Reddit(_) => reddit_suitable(url),
            Scraper::NineGag(_) => ninegag_suitable(url),
            Scraper::Twitter(_) => twitter_suitable(url),
            Scraper::Imgur(_) => imgur_suitable(url),
        }
    }

    /// Whether this scraper handles `url`.
    pub fn is_suitable(&self, url: &WebUrl) -> (r: bool)
        ensures
            r == self.suitable(url@),
    {
        match self {
            Scraper::Reddit(a) => a.is_suitable(url),
            Scraper::NineGag(a) => a.is_suitable(url),
            Scraper::Twitter(a) => a.is_suitable(url),
            Scraper::Imgur(a) => a.is_suitable(url),
        }
    }
}

/// Why a request produced no post.
#[derive(Clone, Debug, PartialEq, Eq)]
pub enum Error {
    /// No registered scraper handles the URL.
    NoScraperAvailable,
    /// The scraper failed.
    PostScrapeFailed(ScrapeError),
}

/// What an error says.
pub open spec fn error_text(e: Error) -> Seq<char> {
    match e {
        Error::NoScraperAvailable => "No scraper available"@,
        Error::PostScrapeFailed(s) => "Unable to scrape post: "@ + scrape_error_text(s),
    }
}

impl Error {
    /// A one-line description of the error, with the scraper's failure where there is one.
    pub fn describe(&self) -> (r: String)
        ensures
            r@ == error_text(*self),
    {
        match self {
            Error::NoScraperAvailable => String::from_str("No scraper available"),
            Error::PostScrapeFailed(e) => {
                let mut r = String::from_str("Unable to scrape post: ");
                r.append(e.describe().as_str());
                r
            },
        }
    }
}

/// The index of the first scraper in `apis` that handles `url`, if any.
pub open spec fn first_suitable(apis: Seq<Scraper>, url: Seq<char>) -> Option<int>
    decreases apis.len(),
{
    if apis.len() == 0 {
        None
    } else {
        match first_suitable(apis.drop_last(), url) {
            Some(i) => Some(i),
            None => if apis.last().suitable(url) {
                Some(apis.len() - 1)
            } else {
                None
            },
        }
    }
}

/// The registry of scrapers, in registration order, with the content policies.
pub struct EmbedBot {
    apis: Vec<Scraper>,
    embed_behaviours: EmbedBehaviours,
}

impl EmbedBot {
    /// The registered scrapers, in registration order.
    pub closed spec fn scrapers(&self) -> Seq<Scraper> {
        self.apis@
    }

    /// The content policies.
    pub closed spec fn behaviours(&self) -> EmbedBehaviours {
        self.embed_behaviours
    }

    /// A registry without scrapers that applies the given policies.
    pub fn from_settings(settings: EmbedBehaviours) -> (r: EmbedBot)
        ensures
            r.scrapers() == Seq::<Scraper>::empty(),
            r.behaviours() == settings,
    {
        EmbedBot { apis: Vec::new(), embed_behaviours: settings }
    }

    /// Registers a scraper after those already registered: the order of registration is
    /// the order in which scrapers are asked, so of two that handle the same URL the one
    /// registered first wins.
    pub fn register_api(&mut self, api: Scraper)
        ensures
            final(self).scrapers() == old(self).scrapers().push(api),
            final(self).behaviours() == old(self).behaviours(),
    {
        self.apis.push(api);
    }

    /// The registered scrapers.
    pub fn apis(&self) -> (r: &Vec<Scraper>)
        ensures
            r@ == self.scrapers(),
    {
        &self.apis
    }

    /// The content policies.
    pub fn embed_behaviours(&self) -> (r: EmbedBehaviours)
        ensures
            r == self.behaviours(),
    {
        self.embed_behaviours
    }

    /// The index of the first registered scraper that handles `url`.
    pub fn find_api(&self, url: &WebUrl) -> (r: Option<usize>)
        ensures
            match r {
                Some(i) => first_suitable(self.scrapers(), url@) == Some(i as int),
                None => first_suitable(self.scrapers(), url@) is None,
            },
    {
        let mut i: usize = 0;
        while i < self.apis.len()
            invariant
                0 <= i <= self.apis.len(),
                first_suitable(self.apis@.take(i as int), url@) is None,
            decreases self.apis.len() - i,
        {
            assert(self.apis@.take(i + 1).drop_last() =~= self.apis@.take(i as int));
            if self.apis[i].is_suitable(url) {
                proof {
                    lemma_first_suitable_prefix(self.apis@, i + 1, url@);
                }
                return Some(i);
            }
            i += 1;
        }
        assert(self.apis@.take(i as int) =~= self.apis@);
        None
    }

    /// Chooses the scraper for `url` and the URL to hand it: `url` without its fragment.
    pub fn scrape_target(&self, url: &WebUrl) -> (r: Result<(usize, WebUrl), Error>)
        ensures
            first_suitable(self.scrapers(), url@) is None ==> r == Err::<(usize, WebUrl), Error>(
                Error::NoScraperAvailable,
            ),
            first_suitable(self.scrapers(), url@) is Some ==> match r {
                Ok((i, u)) => first_suitable(self.scrapers(), url@) == Some(i as int)
                    && url_without_fragment(url@) == Some(u@),
                Err(e) => e == Error::PostScrapeFailed(ScrapeError::BadUrl)
                    && url_without_fragment(url@) is None,
            },
    {
        match self.find_api(url) {
            Some(i) => match url.without_fragment() {
                Some(u) => Ok((i, u)),
                None => Err(Error::PostScrapeFailed(ScrapeError::BadUrl)),
            },
            None => Err(Error::NoScraperAvailable),
        }
    }
}

proof fn lemma_first_suitable_prefix(apis: Seq<Scraper>, n: int, url: Seq<char>)
    requires
        0 < n <= apis.len(),
        first_suitable(apis.take(n - 1), url) is None,
        apis[n - 1].suitable(url),
    ensures
        first_suitable(apis, url) == Some(n - 1),
    decreases apis.len(),
{
    if n < apis.len() {
        assert(apis.drop_last().take(n - 1) =~= apis.take(n - 1));
        lemma_first_suitable_prefix(apis.drop_last(), n, url);
    } else {
        assert(apis.drop_last() =~= apis.take(n - 1));
    }
}

/// Where no registered scraper handles a URL, the registry finds none and the request
/// ends with `NoScraperAvailable`.
pub proof fn lemma_no_scraper_available(apis: Seq<Scraper>, url: Seq<char>)
    requires
        forall|i: int| 0 <= i < apis.len() ==> !(#[trigger] apis[i]).suitable(url),
    ensures
        first_suitable(apis, url) is None,
    decreases apis.len(),
{
    if apis.len() > 0 {
        let p = apis.drop_last();
        assert forall|i: int| 0 <= i < p.len() implies !(#[trigger] p[i]).suitable(url) by {
            assert(p[i] == apis[i]);
        }
        lemma_no_scraper_available(p, url);
        assert(!apis[apis.len() - 1].suitable(url));
    }
}

/// Whether content of a category is embedded: the request's choice where it made one
/// and the policy allows it, else the policy's default.
pub open spec fn embed_choice(behav: EmbedBehaviour, requested: Option<bool>) -> bool {
    match requested {
        Some(b) => if behav.allow_override {
            b
        } else {
            behav.default
        },
        None => behav.default,
    }
}

/// Decides whether content of a category is embedded for a request.
pub fn select_embed_behaviour(behav: &EmbedBehaviour, requested: Option<bool>) -> (r: bool)
    ensures
        r == embed_choice(*behav, requested),
{
    match requested {
        Some(request) if behav.allow_override => request,
        _ => behav.default,
    }
}

/// The URL of a message and the comment around it: where the message has several lines,
/// the first of its non-empty lines that is a URL, and the other non-empty lines joined
/// by line breaks.
pub open spec fn message_parts(lines: Seq<Seq<char>>) -> (Option<Seq<char>>, Option<Seq<char>>) {
    if lines.len() == 0 {
        (None, None)
    } else if lines.len() == 1 {
        (url_href(lines[0]), None)
    } else {
        (first_url(lines), Some(comment_lines(lines)))
    }
}

/// The first non-empty line of `lines` that parses as a URL, parsed.
pub open spec fn first_url(lines: Seq<Seq<char>>) -> Option<Seq<char>>
    decreases lines.len(),
{
    if lines.len() == 0 {
        None
    } else {
        match first_url(lines.drop_last()) {
            Some(u) => Some(u),
            None => if lines.last().len() > 0 {
                url_href(lines.last())
            } else {
                None
            },
        }
    }
}

/// The non-empty lines of `lines` that are no URL, joined by line breaks.
pub open spec fn comment_lines(lines: Seq<Seq<char>>) -> Seq<char>
    decreases lines.len(),
{
    if lines.len() == 0 {
        Seq::empty()
    } else {
        let before = comment_lines(lines.drop_last());
        let l = lines.last();
        if l.len() == 0 || url_href(l) is Some {
            before
        } else if has_comment_line(lines.drop_last()) {
            before + "\n"@ + l
        } else {
            l
        }
    }
}

/// Whether some line of `lines` goes into the comment.
pub open spec fn has_comment_line(lines: Seq<Seq<char>>) -> bool {
    exists|i: int| 0 <= i < lines.len() && lines[i].len() > 0 && #[trigger] url_href(lines[i]) is None
}

proof fn lemma_no_comment_lines(lines: Seq<Seq<char>>)
    requires
        !has_comment_line(lines),
    ensures
        comment_lines(lines) == Seq::<char>::empty(),
    decreases lines.len(),
{
    if lines.len() > 0 {
        let p = lines.drop_last();
        assert(!has_comment_line(p)) by {
            if has_comment_line(p) {
                let j = choose|j: int| 0 <= j < p.len() && p[j].len() > 0 && #[trigger] url_href(p[j]) is None;
                assert(lines[j] == p[j]);
            }
        }
        lemma_no_comment_lines(p);
        let k = lines.len() - 1;
        assert(!(lines[k].len() > 0 && url_href(lines[k]) is None));
    }
}

/// Splits a chat message into the URL to embed and the comment around it.
pub fn parse_message(content: &str) -> (r: (Option<WebUrl>, Option<String>))
    ensures
        (match r.0 {
            Some(u) => Some(u@),
            None => None,
        }, match r.1 {
            Some(c) => Some(c@),
            None => None,
        }) == message_parts(lines_of(content@)),
{
    let lines = split_lines(content);
    let ghost ls = lines@.map_values(|l: String| l@);
    if lines.len() == 0 {
        return (None, None);
    }
    if lines.len() == 1 {
        return (WebUrl::parse(lines[0].as_str()), None);
    }
    let mut url: Option<WebUrl> = None;
    let mut comment = String::new();
    let mut any = false;
    let mut i: usize = 0;
    assert(ls.take(0) =~= Seq::<Seq<char>>::empty());
    while i < lines.len()
        invariant
            ls == lines@.map_values(|l: String| l@),
            ls == lines_of(content@),
            0 <= i <= lines.len(),
            match url {
                Some(u) => first_url(ls.take(i as int)) == Some(u@),
                None => first_url(ls.take(i as int)) is None,
            },
            comment@ == comment_lines(ls.take(i as int)),
            any == has_comment_line(ls.take(i as int)),
        decreases lines.len() - i,
    {
        let ghost before = ls.take(i as int);
        assert(ls.take(i + 1).drop_last() =~= before);
        assert(ls.take(i + 1).last() == lines@[i as int]@);
        let line = lines[i].as_str();
        if !line.is_empty() {
            match WebUrl::parse(line) {
                Some(u) => {
                    if url.is_none() {
                        url = Some(u);
                    }
                },
                None => {
                    proof {
                        if !any {
                            lemma_no_comment_lines(before);
                            assert(comment@ + line@ =~= line@);
                        }
                    }
                    if any {
                        comment.append("\n");
                    }
                    comment.append(line);
                    any = true;
                    proof {
                        assert(has_comment_line(ls.take(i + 1))) by {
                            assert(ls.take(i + 1)[i as int] == ls[i as int]);
                        }
                    }
                },
            }
        }
        proof {
            if line@.len() == 0 || url_href(line@) is Some {
                assert(has_comment_line(ls.take(i + 1)) == has_comment_line(before)) by {
                    if has_comment_line(ls.take(i + 1)) {
                        let j = choose|j: int| 0 <= j < ls.take(i + 1).len() && ls.take(i + 1)[j].len() > 0 && #[trigger] url_href(ls.take(i + 1)[j]) is None;
                        assert(j < i);
                        assert(before[j] == ls.take(i + 1)[j]);
                    }
                    if has_comment_line(before) {
                        let j = choose|j: int| 0 <= j < before.len() && before[j].len() > 0 && #[trigger] url_href(before[j]) is None;
                        assert(before[j] == ls.take(i + 1)[j]);
                    }
                }
            }
        }
        i += 1;
    }
    assert(ls.take(i as int) =~= ls);
    (url, Some(comment))
}

} // verus!
