//! Twitter/X: a rendered post page is turned into a post.
use crate::html::{attrs, selected_attrs, selected_text_nodes, text_nodes};
use crate::scraper::{media_view, urls_view, MediaView, PagePart, Post, PostCommonData, PostSpecializedData, ScrapeError};
use crate::text::{starts_with, str_eq, str_starts_with};
use crate::web_url::{opt_view, url_domain, url_href, url_path, WebUrl};
use vstd::prelude::*;
use vstd::string::StringExecFns;
use vstd::string::StrSliceExecFns;

verus! {

/// Settings of the Twitter scraper.
#[derive(Clone, Debug, Default, PartialEq, Eq)]
pub struct ApiSettings {
    /// The browser executable that renders pages; the default one where `None`.
    pub chrome_executable: Option<String>,
}

/// The Twitter scraper.
#[derive(Clone, Debug, PartialEq, Eq)]
pub struct Api {
    settings: ApiSettings,
}

/// Whether `url` is on Twitter or X.
pub open spec fn twitter_suitable(url: Seq<char>) -> bool {
    url_domain(url) == Some("twitter.com"@) || url_domain(url) == Some("x.com"@)
}

/// `k` is the length of the first segment of `s`: the characters before the first `/`.
pub open spec fn is_segment_len(s: Seq<char>, k: int) -> bool {
    &&& 0 <= k <= s.len()
    &&& forall|j: int| 0 <= j < k ==> s[j] != '/'
    &&& (k == s.len() || s[k] == '/')
}

/// The first segment of a path that starts with `/`.
pub open spec fn first_segment(path: Option<Seq<char>>) -> Option<Seq<char>> {
    match path {
        Some(p) => if p.len() > 0 && p[0] == '/' {
            let rest = p.skip(1);
            Some(rest.take(choose|k: int| is_segment_len(rest, k)))
        } else {
            None
        },
        None => None,
    }
}

/// The concatenation of the text nodes other than the ellipsis glyph.
pub open spec fn text_without_ellipsis(nodes: Seq<Seq<char>>) -> Seq<char>
    decreases nodes.len(),
{
    if nodes.len() == 0 {
        Seq::empty()
    } else {
        text_without_ellipsis(nodes.drop_last()) + if nodes.last() == "…"@ {
            Seq::empty()
        } else {
            nodes.last()
        }
    }
}

/// The text of the tweet: that of the first tweet-text element, empty where there is none.
pub open spec fn tweet_text(doc: Seq<char>) -> Seq<char> {
    let els = selected_text_nodes(doc, "article div[data-testid=\"tweetText\"]"@);
    if els.len() > 0 {
        text_without_ellipsis(els[0])
    } else {
        Seq::empty()
    }
}

/// The prefix of the URLs of media images.
pub open spec fn media_prefix() -> Seq<char> {
    "https://pbs.twimg.com/media"@
}

/// The image sources that are media images and parse as URLs, parsed, in order.
pub open spec fn media_images(srcs: Seq<Option<Seq<char>>>) -> Seq<Seq<char>>
    decreases srcs.len(),
{
    if srcs.len() == 0 {
        Seq::empty()
    } else {
        let before = media_images(srcs.drop_last());
        match srcs.last() {
            Some(s) => if starts_with(s, media_prefix()) && url_href(s) is Some {
                before.push(url_href(s)->0)
            } else {
                before
            },
            None => before,
        }
    }
}

/// The images of the tweet.
pub open spec fn tweet_images(doc: Seq<char>) -> Seq<Seq<char>> {
    media_images(selected_attrs(doc, "article img[alt]:not([alt=\"\"])"@, "src"@))
}

/// The first value of a list of attribute values, where there is one.
pub open spec fn first_attr(vals: Seq<Option<Seq<char>>>) -> Option<Seq<char>> {
    if vals.len() > 0 {
        vals[0]
    } else {
        None
    }
}

/// The media of the tweet: without images, its MP4 video, else its video's poster
/// image, else none; one image; or a gallery of two or more. `None` where the video's
/// source or poster is missing or no URL.
pub open spec fn tweet_media(doc: Seq<char>) -> Option<MediaView> {
    let images = tweet_images(doc);
    if images.len() == 0 {
        let types = selected_attrs(doc, "article video"@, "type"@);
        if types.len() == 0 {
            Some(MediaView::TextOnly)
        } else if types[0] == Some("video/mp4"@) {
            match first_attr(selected_attrs(doc, "article video"@, "src"@)) {
                Some(s) => match url_href(s) {
                    Some(h) => Some(MediaView::Video(h)),
                    None => None,
                },
                None => None,
            }
        } else {
            match first_attr(selected_attrs(doc, "article video"@, "poster"@)) {
                Some(s) => match url_href(s) {
                    Some(h) => Some(MediaView::VideoThumbnail(h)),
                    None => None,
                },
                None => None,
            }
        }
    } else if images.len() == 1 {
        Some(MediaView::Image(images[0]))
    } else {
        Some(MediaView::Gallery(images))
    }
}

/// Whether the rendered page of `url` yields a post.
pub open spec fn twitter_ok(url: Seq<char>, doc: Seq<char>) -> bool {
    first_segment(url_path(url)) is Some && tweet_media(doc) is Some
}

/// What the post read from the rendered page of `url` holds.
pub open spec fn twitter_post(url: Seq<char>, doc: Seq<char>, p: Post) -> bool {
    &&& p.common.src@ == url
    &&& p.common.origin@ == "twitter.com"@
    &&& p.common.title@ == "@"@ + first_segment(url_path(url))->0
    &&& p.common.text@ == tweet_text(doc)
    &&& !p.common.nsfw
    &&& !p.common.spoiler
    &&& p.common.comment is None
    &&& Some(media_view(p.specialized)) == tweet_media(doc)
}

/// The author named by the first segment of the URL's path.
pub fn author_of(url: &WebUrl) -> (r: Option<String>)
    ensures
        opt_view(r) == first_segment(url_path(url@)),
{
    let p = match url.path() {
        Some(p) => p,
        None => return None,
    };
    let n = p.as_str().unicode_len();
    if n == 0 || p.as_str().get_char(0) != '/' {
        return None;
    }
    let rest = p.as_str().substring_char(1, n);
    let m = rest.unicode_len();
    let cs = crate::text::chars_of(rest);
    let mut k: usize = 0;
    while k < m && cs[k] != '/'
        invariant
            cs@ == rest@,
            m == rest@.len(),
            0 <= k <= m,
            forall|j: int| 0 <= j < k ==> rest@[j] != '/',
        decreases m - k,
    {
        k += 1;
    }
    proof {
        assert(is_segment_len(rest@, k as int));
        let c = choose|c: int| is_segment_len(rest@, c);
        if c < k {
            assert(rest@[c] != '/');
        } else if k < c {
            assert(rest@[k as int] != '/');
        }
        assert(rest@ == p@.skip(1));
    }
    Some(String::from_str(rest.substring_char(0, k)))
}

fn tweet_text_of(page: &str) -> (r: String)
    ensures
        r@ == tweet_text(page@),
{
    let els = text_nodes(page, "article div[data-testid=\"tweetText\"]");
    if els.len() == 0 {
        return String::new();
    }
    let nodes = &els[0];
    let ghost nv = nodes@.map_values(|t: String| t@);
    assert(nv == selected_text_nodes(page@, "article div[data-testid=\"tweetText\"]"@)[0]);
    let mut r = String::new();
    let mut i: usize = 0;
    assert(nv.take(0) =~= Seq::<Seq<char>>::empty());
    while i < nodes.len()
        invariant
            nv == nodes@.map_values(|t: String| t@),
            0 <= i <= nodes.len(),
            r@ == text_without_ellipsis(nv.take(i as int)),
        decreases nodes.len() - i,
    {
        assert(nv.take(i + 1).drop_last() =~= nv.take(i as int));
        if !str_eq(nodes[i].as_str(), "…") {
            r.append(nodes[i].as_str());
        } else {
            assert(r@ + Seq::<char>::empty() =~= r@);
        }
        i += 1;
    }
    assert(nv.take(i as int) =~= nv);
    r
}

fn tweet_images_of(page: &str) -> (r: Vec<WebUrl>)
    ensures
        urls_view(r@) == tweet_images(page@),
{
    let srcs = attrs(page, "article img[alt]:not([alt=\"\"])", "src");
    let ghost sv = srcs@.map_values(|a: Option<String>| match a { Some(s) => Some(s@), None => None });
    let mut r: Vec<WebUrl> = Vec::new();
    let mut i: usize = 0;
    assert(sv.take(0) =~= Seq::<Option<Seq<char>>>::empty());
    assert(urls_view(r@) =~= Seq::<Seq<char>>::empty());
    while i < srcs.len()
        invariant
            sv == srcs@.map_values(|a: Option<String>| match a { Some(s) => Some(s@), None => None }),
            0 <= i <= srcs.len(),
            urls_view(r@) == media_images(sv.take(i as int)),
        decreases srcs.len() - i,
    {
        assert(sv.take(i + 1).drop_last() =~= sv.take(i as int));
        if let Some(s) = &srcs[i] {
            if str_starts_with(s.as_str(), "https://pbs.twimg.com/media") {
                if let Some(u) = WebUrl::parse(s.as_str()) {
                    let ghost before = r@;
                    r.push(u);
                    assert(urls_view(r@) =~= urls_view(before).push(u@));
                }
            }
        }
        i += 1;
    }
    assert(sv.take(i as int) =~= sv);
    r
}

fn first_of(vals: &Vec<Option<String>>) -> (r: Option<String>)
    ensures
        opt_view(r) == first_attr(vals@.map_values(|a: Option<String>| match a { Some(s) => Some(s@), None => None })),
{
    if vals.len() > 0 {
        vals[0].clone()
    } else {
        None
    }
}

fn tweet_media_of(page: &str) -> (r: Result<PostSpecializedData, ScrapeError>)
    ensures
        match r {
            Ok(m) => tweet_media(page@) == Some(media_view(m)),
            Err(e) => tweet_media(page@) is None && (e is Missing || e is BadUrl),
        },
{
    let mut images = tweet_images_of(page);
    if images.len() == 0 {
        let types = attrs(page, "article video", "type");
        if types.len() == 0 {
            return Ok(PostSpecializedData::TextOnly);
        }
        let mp4 = match &types[0] {
            Some(t) => str_eq(t.as_str(), "video/mp4"),
            None => false,
        };
        if mp4 {
            match first_of(&attrs(page, "article video", "src")) {
                Some(s) => match WebUrl::parse(s.as_str()) {
                    Some(h) => Ok(PostSpecializedData::Video { video_url: h }),
                    None => Err(ScrapeError::BadUrl),
                },
                None => Err(ScrapeError::Missing(PagePart::VideoSource)),
            }
        } else {
            match first_of(&attrs(page, "article video", "poster")) {
                Some(s) => match WebUrl::parse(s.as_str()) {
                    Some(h) => Ok(PostSpecializedData::VideoThumbnail { thumbnail_url: h }),
                    None => Err(ScrapeError::BadUrl),
                },
                None => Err(ScrapeError::Missing(PagePart::VideoPoster)),
            }
        }
    } else if images.len() == 1 {
        let img_url = images.pop().unwrap();
        Ok(PostSpecializedData::Image { img_url })
    } else {
        Ok(PostSpecializedData::Gallery { img_urls: images })
    }
}

impl Api {
    /// A Twitter scraper with the given settings.
    pub fn from_settings(settings: ApiSettings) -> (r: Api)
        ensures
            r.settings() == settings,
    {
        Api { settings }
    }

    /// The scraper's settings.
    pub closed spec fn settings(&self) -> ApiSettings {
        self.settings
    }

    /// The browser executable that renders pages, if one is set.
    pub fn chrome_executable(&self) -> (r: &Option<String>)
        ensures
            *r == self.settings().chrome_executable,
    {
        &self.settings.chrome_executable
    }

    /// Whether `url` is on Twitter or X.
    pub fn is_suitable(&self, url: &WebUrl) -> (r: bool)
        ensures
            r == twitter_suitable(url@),
    {
        match url.domain() {
            Some(d) => str_eq(d.as_str(), "twitter.com") || str_eq(d.as_str(), "x.com"),
            None => false,
        }
    }

    /// Reads the tweet at `url` out of its page as a browser rendered it.
    pub fn analyze_page(url: &WebUrl, page: &str) -> (r: Result<Post, ScrapeError>)
        ensures
            r is Ok <==> twitter_ok(url@, page@),
            r is Ok ==> twitter_post(url@, page@, r->Ok_0) && r->Ok_0.wf(),
            first_segment(url_path(url@)) is None ==> r == Err::<Post, ScrapeError>(
                ScrapeError::Missing(PagePart::Author),
            ),
            r is Err ==> r->Err_0 is Missing || r->Err_0 is BadUrl,
    {
        let author = match author_of(url) {
            Some(a) => a,
            None => return Err(ScrapeError::Missing(PagePart::Author)),
        };
        let text = tweet_text_of(page);
        let specialized = tweet_media_of(page)?;
        let mut title = String::from_str("@");
        title.append(author.as_str());
        proof {
            reveal_strlit("twitter.com");
        }
        let common = PostCommonData {
            text,
            nsfw: false,
            spoiler: false,
            src: url.duplicate(),
            origin: String::from_str("twitter.com"),
            title,
            comment: None,
        };
        Ok(Post { common, specialized })
    }
}

} // verus!
