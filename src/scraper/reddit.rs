//! Reddit: a post's JSON listing is turned into a post.
use crate::json::{
    at_in, bool_in, found, get, get_in, json_bool, json_index, json_key, json_object, json_str,
    object_in, str_in, Json, JsonNavError, Shape,
};
use crate::scraper::util::{
    html_unescaped, path_ends_with, path_has_image_extension, path_last_segment, url_last_segment, unescape_html, unescape_url,
    url_path_ends_with, url_path_ends_with_image_extension, url_unescaped,
};
use crate::scraper::{
    comment_view, media_view, nav, urls_view, Comment, MediaView, Post, PostCommonData,
    PostSpecializedData, ScrapeError,
};
use crate::text::str_eq;
use crate::web_url::{url_domain, url_href, url_path, url_with_path, url_without_query, WebUrl};
use vstd::prelude::*;
use vstd::string::StringExecFns;

verus! {

/// Settings of the Reddit scraper; it has none.
#[derive(Clone, Copy, Debug, Default, PartialEq, Eq)]
pub struct ApiSettings {}

/// The Reddit scraper.
#[derive(Clone, Copy, Debug, PartialEq, Eq)]
pub struct Api;

/// `data.children[0].data` of listing `i` of the document.
pub open spec fn listing_child(j: Json, i: int) -> Option<Json> {
    get_in(at_in(get_in(get_in(at_in(Some(j), i), "data"@), "children"@), 0), "data"@)
}

/// The post as the listing gives it.
pub open spec fn top_post(j: Json) -> Option<Json> {
    object_in(listing_child(j, 0))
}

/// The original post, where the top post is a cross-post.
pub open spec fn crossposted(top: Json) -> Option<Json> {
    object_in(at_in(get(top, "crosspost_parent_list"@), 0))
}

/// The post whose content counts: the original of a cross-post, else the top post.
pub open spec fn post_data(top: Json) -> Json {
    match crossposted(top) {
        Some(p) => p,
        None => top,
    }
}

/// The label of where a post comes from.
pub open spec fn origin_of(subreddit: Seq<char>, original: Seq<char>, xpost: bool) -> Seq<char> {
    if xpost {
        "reddit.com/r/"@ + subreddit + " [XPosted from r/"@ + original + "]"@
    } else {
        "reddit.com/r/"@ + subreddit
    }
}

/// A title with its flair, if any, in brackets behind it.
pub open spec fn titled(title: Seq<char>, flair: Seq<char>) -> Seq<char> {
    if flair.len() == 0 {
        title
    } else {
        title + " ["@ + flair + "]"@
    }
}

/// The string member `key` of `v`, or the empty text.
pub open spec fn str_or_empty(v: Json, key: Seq<char>) -> Seq<char> {
    match str_in(get(v, key)) {
        Some(s) => s,
        None => Seq::empty(),
    }
}

/// The boolean member `key` of `v`, or false.
pub open spec fn bool_or_false(v: Json, key: Seq<char>) -> bool {
    match bool_in(get(v, key)) {
        Some(b) => b,
        None => false,
    }
}

/// The comment that the document attaches to the post at `url`: the first comment of the
/// second listing, where its id is the last segment of the URL's path (the URL links that
/// comment). `Some(None)` where none is linked, `None` where the comment listing is malformed.
pub open spec fn linked_comment(url: Seq<char>, j: Json) -> Option<Option<(Seq<char>, Seq<char>)>> {
    match listing_child(j, 1) {
        None => Some(None),
        Some(c) => match str_in(get(c, "id"@)) {
            None => None,
            Some(id) => if path_last_segment(url) == Some(id) {
                match (str_in(get(c, "author"@)), str_in(get(c, "body"@))) {
                    (Some(a), Some(b)) => Some(Some((a, html_unescaped(b)))),
                    _ => None,
                }
            } else {
                Some(None)
            },
        },
    }
}

/// The post's thumbnail, as a URL.
pub open spec fn thumbnail_url(top: Json) -> Option<Seq<char>> {
    match str_in(get(top, "thumbnail"@)) {
        Some(t) => url_href(t),
        None => None,
    }
}

/// The image URL of one gallery entry.
pub open spec fn gallery_entry_url(entry: Json) -> Option<Seq<char>> {
    match str_in(get_in(get(entry, "s"@), "u"@)) {
        Some(u) => url_href(url_unescaped(u)),
        None => None,
    }
}

/// The image URLs of all gallery entries, in the map's order; `None` where one is missing.
pub open spec fn gallery_urls(entries: Seq<(String, Json)>) -> Option<Seq<Seq<char>>>
    decreases entries.len(),
{
    if entries.len() == 0 {
        Some(Seq::empty())
    } else {
        match (gallery_urls(entries.drop_last()), gallery_entry_url(entries.last().1)) {
            (Some(urls), Some(u)) => Some(urls.push(u)),
            _ => None,
        }
    }
}

/// The media named by the post's `url` member, with the thumbnail in place of a URL
/// that does not parse.
pub open spec fn link_media(post: Json, top: Json) -> Option<MediaView> {
    match str_in(get(post, "url"@)) {
        None => None,
        Some(u) => {
            let link = match url_href(u) {
                Some(h) => Some(h),
                None => thumbnail_url(top),
            };
            match link {
                Some(h) => if path_has_image_extension(h) {
                    Some(MediaView::Image(h))
                } else if path_ends_with(h, ".gifv"@) {
                    Some(MediaView::Video(h))
                } else {
                    Some(MediaView::TextOnly)
                },
                None => Some(MediaView::TextOnly),
            }
        },
    }
}

/// The post's media, by the first rule that applies: a Reddit video; an embedded
/// thumbnail; a gallery of one image (an image) or more (a gallery); else the link.
/// `None` where a member that the applying rule reads is missing.
pub open spec fn reddit_media(post: Json, top: Json) -> Option<MediaView> {
    let sm = object_in(get(post, "secure_media"@));
    if get_in(sm, "reddit_video"@) is Some {
        match str_in(get_in(get_in(sm, "reddit_video"@), "fallback_url"@)) {
            Some(u) => match url_href(u) {
                Some(h) => Some(MediaView::Video(h)),
                None => None,
            },
            None => None,
        }
    } else if get_in(sm, "oembed"@) is Some {
        match str_in(get_in(get_in(sm, "oembed"@), "thumbnail_url"@)) {
            Some(u) => match url_href(u) {
                Some(h) => Some(MediaView::Image(h)),
                None => match thumbnail_url(top) {
                    Some(h) => Some(MediaView::Image(h)),
                    None => None,
                },
            },
            None => None,
        }
    } else {
        match object_in(get(post, "media_metadata"@)) {
            Some(Json::Object(meta)) => if meta@.len() == 0 {
                link_media(post, top)
            } else {
                match gallery_urls(meta@) {
                    Some(urls) => if urls.len() == 1 {
                        Some(MediaView::Image(urls[0]))
                    } else {
                        Some(MediaView::Gallery(urls))
                    },
                    None => None,
                }
            },
            _ => link_media(post, top),
        }
    }
}

/// Whether the document yields a post for `url`: every member that is read is there.
pub open spec fn reddit_ok(url: Seq<char>, j: Json) -> bool {
    match top_post(j) {
        None => false,
        Some(top) => {
            let post = post_data(top);
            &&& str_in(get(top, "subreddit"@)) is Some
            &&& str_in(get(post, "title"@)) is Some
            &&& str_in(get(post, "subreddit"@)) is Some
            &&& str_in(get(post, "selftext"@)) is Some
            &&& linked_comment(url, j) is Some
            &&& reddit_media(post, top) is Some
        },
    }
}

/// What the post read from the document for `url` holds.
pub open spec fn reddit_post(url: Seq<char>, j: Json, p: Post) -> bool {
    let top = top_post(j)->0;
    let post = post_data(top);
    &&& p.common.src@ == url
    &&& p.common.origin@ == origin_of(
        str_in(get(top, "subreddit"@))->0,
        str_in(get(post, "subreddit"@))->0,
        crossposted(top) is Some,
    )
    &&& p.common.title@ == titled(
        str_in(get(post, "title"@))->0,
        str_or_empty(post, "link_flair_text"@),
    )
    &&& p.common.text@ == html_unescaped(str_in(get(post, "selftext"@))->0)
    &&& p.common.nsfw == bool_or_false(post, "over_18"@)
    &&& p.common.spoiler == bool_or_false(post, "spoiler"@)
    &&& comment_view(p.common.comment) == linked_comment(url, j)->0
    &&& media_view(p.specialized) == reddit_media(post, top)->0
}

/// Whether `url` is on Reddit.
pub open spec fn reddit_suitable(url: Seq<char>) -> bool {
    url_domain(url) == Some("reddit.com"@) || url_domain(url) == Some("www.reddit.com"@)
}

fn listing_data(json: &Json, i: usize) -> (r: Result<&Json, JsonNavError>)
    ensures
        found(r) == listing_child(*json, i as int),
{
    let a = json_index(json, i)?;
    let b = json_key(a, "data")?;
    let c = json_key(b, "children")?;
    let d = json_index(c, 0)?;
    json_key(d, "data")
}

fn str_member(v: &Json, key: &str) -> (r: Result<String, ScrapeError>)
    ensures
        match r {
            Ok(s) => str_in(get(*v, key@)) == Some(s@),
            Err(e) => str_in(get(*v, key@)) is None && (e is Json || e is BadUrl),
        },
{
    let x = nav(json_key(v, key))?;
    let s = nav(json_str(x))?;
    Ok(s.clone())
}

fn str_member_or_empty(v: &Json, key: &str) -> (r: String)
    ensures
        r@ == str_or_empty(*v, key@),
{
    match str_member(v, key) {
        Ok(s) => s,
        Err(_) => String::new(),
    }
}

fn bool_member_or_false(v: &Json, key: &str) -> (r: bool)
    ensures
        r == bool_or_false(*v, key@),
{
    match json_key(v, key) {
        Ok(x) => match json_bool(x) {
            Ok(b) => b,
            Err(_) => false,
        },
        Err(_) => false,
    }
}

fn fmt_title(title: &str, flair: &str) -> (r: String)
    ensures
        r@ == titled(title@, flair@),
{
    let mut t = String::from_str(title);
    if !flair.is_empty() {
        t.append(" [");
        t.append(flair);
        t.append("]");
    }
    t
}

fn origin(subreddit: &str, original: &str, xpost: bool) -> (r: String)
    ensures
        r@ == origin_of(subreddit@, original@, xpost),
        r@.len() > 0,
{
    proof {
        reveal_strlit("reddit.com/r/");
    }
    let mut o = String::from_str("reddit.com/r/");
    o.append(subreddit);
    if xpost {
        o.append(" [XPosted from r/");
        o.append(original);
        o.append("]");
    }
    o
}

fn comment_of(url: &WebUrl, json: &Json) -> (r: Result<Option<Comment>, ScrapeError>)
    ensures
        match r {
            Ok(c) => linked_comment(url@, *json) == Some(comment_view(c)),
            Err(e) => linked_comment(url@, *json) is None && (e is Json || e is BadUrl),
        },
{
    match listing_data(json, 1) {
        Ok(c) => {
            let id = str_member(c, "id")?;
            let linked = match url_last_segment(url) {
                Some(seg) => str_eq(seg.as_str(), id.as_str()),
                None => false,
            };
            if linked {
                let author = str_member(c, "author")?;
                let body = str_member(c, "body")?;
                Ok(Some(Comment { author, text: unescape_html(body.as_str()) }))
            } else {
                Ok(None)
            }
        },
        Err(_) => Ok(None),
    }
}

fn thumbnail_of(top: &Json) -> (r: Option<WebUrl>)
    ensures
        match r {
            Some(u) => thumbnail_url(*top) == Some(u@),
            None => thumbnail_url(*top) is None,
        },
{
    match str_member(top, "thumbnail") {
        Ok(t) => WebUrl::parse(t.as_str()),
        Err(_) => None,
    }
}

fn gallery_entry(entry: &Json) -> (r: Result<WebUrl, ScrapeError>)
    ensures
        match r {
            Ok(u) => gallery_entry_url(*entry) == Some(u@),
            Err(e) => gallery_entry_url(*entry) is None && (e is Json || e is BadUrl),
        },
{
    let s = nav(json_key(entry, "s"))?;
    let u = str_member(s, "u")?;
    match WebUrl::parse(unescape_url(u.as_str()).as_str()) {
        Some(x) => Ok(x),
        None => Err(ScrapeError::Json(JsonNavError::TypeMismatch { expected: Shape::Url })),
    }
}

proof fn lemma_gallery_prefix_fails(entries: Seq<(String, Json)>, n: int)
    requires
        0 <= n <= entries.len(),
        gallery_urls(entries.take(n)) is None,
    ensures
        gallery_urls(entries) is None,
    decreases entries.len(),
{
    if n < entries.len() {
        assert(entries.drop_last().take(n) =~= entries.take(n));
        lemma_gallery_prefix_fails(entries.drop_last(), n);
    } else {
        assert(entries.take(n) =~= entries);
    }
}

fn gallery(entries: &Vec<(String, Json)>) -> (r: Result<Vec<WebUrl>, ScrapeError>)
    ensures
        match r {
            Ok(urls) => gallery_urls(entries@) == Some(urls_view(urls@)),
            Err(e) => gallery_urls(entries@) is None && (e is Json || e is BadUrl),
        },
{
    let mut urls: Vec<WebUrl> = Vec::new();
    let mut i: usize = 0;
    assert(entries@.take(0) =~= Seq::<(String, Json)>::empty());
    assert(urls_view(urls@) =~= Seq::<Seq<char>>::empty());
    while i < entries.len()
        invariant
            0 <= i <= entries.len(),
            gallery_urls(entries@.take(i as int)) == Some(urls_view(urls@)),
        decreases entries.len() - i,
    {
        assert(entries@.take(i + 1).drop_last() =~= entries@.take(i as int));
        assert(entries@.take(i + 1).last() == entries@[i as int]);
        match gallery_entry(&entries[i].1) {
            Ok(u) => {
                urls.push(u);
                assert(urls_view(urls@) =~= urls_view(urls@.drop_last()).push(urls@.last()@));
            },
            Err(e) => {
                proof {
                    lemma_gallery_prefix_fails(entries@, i + 1);
                }
                return Err(e);
            },
        }
        i += 1;
    }
    assert(entries@.take(i as int) =~= entries@);
    Ok(urls)
}

fn classify_link(post: &Json, top: &Json) -> (r: Result<PostSpecializedData, ScrapeError>)
    ensures
        match r {
            Ok(m) => link_media(*post, *top) == Some(media_view(m)),
            Err(e) => link_media(*post, *top) is None && (e is Json || e is BadUrl),
        },
{
    let u = str_member(post, "url")?;
    let link = match WebUrl::parse(u.as_str()) {
        Some(h) => Some(h),
        None => thumbnail_of(top),
    };
    match link {
        Some(h) => if url_path_ends_with_image_extension(&h) {
            Ok(PostSpecializedData::Image { img_url: h })
        } else if url_path_ends_with(&h, ".gifv") {
            Ok(PostSpecializedData::Video { video_url: h })
        } else {
            Ok(PostSpecializedData::TextOnly)
        },
        None => Ok(PostSpecializedData::TextOnly),
    }
}

fn media_of(post: &Json, top: &Json) -> (r: Result<PostSpecializedData, ScrapeError>)
    ensures
        match r {
            Ok(m) => reddit_media(*post, *top) == Some(media_view(m)),
            Err(e) => reddit_media(*post, *top) is None && (e is Json || e is BadUrl),
        },
{
    let sm: Option<&Json> = match json_key(post, "secure_media") {
        Ok(x) => match json_object(x) {
            Ok(o) => Some(o),
            Err(_) => None,
        },
        Err(_) => None,
    };
    let video = match sm {
        Some(o) => match json_key(o, "reddit_video") {
            Ok(v) => Some(v),
            Err(_) => None,
        },
        None => None,
    };
    let oembed = match sm {
        Some(o) => match json_key(o, "oembed") {
            Ok(v) => Some(v),
            Err(_) => None,
        },
        None => None,
    };
    if let Some(v) = video {
        let u = str_member(v, "fallback_url")?;
        match WebUrl::parse(u.as_str()) {
            Some(h) => Ok(PostSpecializedData::Video { video_url: h }),
            None => Err(ScrapeError::BadUrl),
        }
    } else if let Some(v) = oembed {
        let u = str_member(v, "thumbnail_url")?;
        match WebUrl::parse(u.as_str()) {
            Some(h) => Ok(PostSpecializedData::Image { img_url: h }),
            None => match thumbnail_of(top) {
                Some(h) => Ok(PostSpecializedData::Image { img_url: h }),
                None => Err(ScrapeError::BadUrl),
            },
        }
    } else {
        match json_key(post, "media_metadata") {
            Ok(Json::Object(meta)) => if meta.len() == 0 {
                classify_link(post, top)
            } else {
                let mut urls = gallery(meta)?;
                if urls.len() == 1 {
                    let img_url = urls.pop().unwrap();
                    Ok(PostSpecializedData::Image { img_url })
                } else {
                    Ok(PostSpecializedData::Gallery { img_urls: urls })
                }
            },
            _ => classify_link(post, top),
        }
    }
}

/// The URL a post is known by: where the request for `requested` landed, unless it
/// landed on the age gate or nowhere.
pub fn canonical_post_url(requested: &WebUrl, landed: Option<&WebUrl>) -> (r: WebUrl)
    ensures
        match landed {
            Some(l) => if url_path(l@) == Some("/over18"@) {
                r@ == requested@
            } else {
                r@ == l@
            },
            None => r@ == requested@,
        },
{
    match landed {
        Some(l) => {
            let gated = match l.path() {
                Some(p) => str_eq(p.as_str(), "/over18"),
                None => false,
            };
            if gated {
                requested.duplicate()
            } else {
                l.duplicate()
            }
        },
        None => requested.duplicate(),
    }
}

/// The post URL without its query, and the URL of its JSON document: that URL with
/// `.json` after its path.
pub open spec fn json_endpoints(canonical: Seq<char>) -> Option<(Seq<char>, Seq<char>)> {
    match url_without_query(canonical) {
        Some(q) => match url_path(q) {
            Some(p) => match url_with_path(q, p + ".json"@) {
                Some(j) => Some((q, j)),
                None => None,
            },
            None => None,
        },
        None => None,
    }
}

/// The post URL without its query, and the URL of its JSON document.
pub fn json_endpoint(canonical: &WebUrl) -> (r: Option<(WebUrl, WebUrl)>)
    ensures
        match r {
            Some((q, j)) => json_endpoints(canonical@) == Some((q@, j@)),
            None => json_endpoints(canonical@) is None,
        },
{
    let q = canonical.without_query()?;
    let p = q.path()?;
    let mut path = p;
    path.append(".json");
    let j = q.with_path(path.as_str())?;
    Some((q, j))
}

impl Api {
    /// A Reddit scraper with the given settings.
    pub fn from_settings(_settings: ApiSettings) -> (r: Api) {
        Api
    }

    /// Whether `url` is on Reddit.
    pub fn is_suitable(&self, url: &WebUrl) -> (r: bool)
        ensures
            r == reddit_suitable(url@),
    {
        match url.domain() {
            Some(d) => str_eq(d.as_str(), "reddit.com") || str_eq(d.as_str(), "www.reddit.com"),
            None => false,
        }
    }

    /// Reads the post at `url` out of its JSON document: a listing of the post followed
    /// by a listing of the comment that `url` links to, if any.
    pub fn analyze_post(url: &WebUrl, json: &Json) -> (r: Result<Post, ScrapeError>)
        ensures
            r is Ok <==> reddit_ok(url@, *json),
            r is Ok ==> reddit_post(url@, *json, r->Ok_0) && r->Ok_0.wf(),
            r is Err ==> r->Err_0 is Json || r->Err_0 is BadUrl,
    {
        let top = nav(listing_data(json, 0))?;
        let top = nav(json_object(top))?;
        let subreddit = str_member(top, "subreddit")?;
        let parent: Option<&Json> = match json_key(top, "crosspost_parent_list") {
            Ok(l) => match json_index(l, 0) {
                Ok(p) => match json_object(p) {
                    Ok(o) => Some(o),
                    Err(_) => None,
                },
                Err(_) => None,
            },
            Err(_) => None,
        };
        let is_xpost = parent.is_some();
        let post: &Json = match parent {
            Some(p) => p,
            None => top,
        };
        let title = str_member(post, "title")?;
        let original_subreddit = str_member(post, "subreddit")?;
        let selftext = str_member(post, "selftext")?;
        let text = unescape_html(selftext.as_str());
        let flair = str_member_or_empty(post, "link_flair_text");
        let nsfw = bool_member_or_false(post, "over_18");
        let spoiler = bool_member_or_false(post, "spoiler");
        let comment = comment_of(url, json)?;
        let common = PostCommonData {
            src: url.duplicate(),
            origin: origin(subreddit.as_str(), original_subreddit.as_str(), is_xpost),
            title: fmt_title(title.as_str(), flair.as_str()),
            text,
            nsfw,
            spoiler,
            comment,
        };
        let specialized = media_of(post, top)?;
        Ok(Post { common, specialized })
    }
}

} // verus!
