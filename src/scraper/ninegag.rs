//! 9GAG: a post page is turned into a post.
use crate::html::{selected_texts, texts};
use crate::json::{
    get, get_in, json_key, json_object, json_str, json_parsed_bytes, object_in, str_in, Json,
};
use crate::scraper::util::ends_with;
use crate::scraper::{media_view, nav, MediaView, PagePart, Post, PostCommonData, PostSpecializedData, ScrapeError};
use crate::text::{contains, replace_all, replaced, str_contains, str_eq};
use crate::web_url::{url_domain, url_href, WebUrl};
use vstd::prelude::*;
use vstd::slice::slice_subrange;
use vstd::string::StringExecFns;
use vstd::string::StrSliceExecFns;
use vstd::utf8::encode_utf8;

verus! {

/// Settings of the 9GAG scraper; it has none.
#[derive(Clone, Copy, Debug, Default, PartialEq, Eq)]
pub struct ApiSettings {}

/// The 9GAG scraper.
#[derive(Clone, Copy, Debug, PartialEq, Eq)]
pub struct Api;

/// Whether `url` is on 9GAG.
pub open spec fn ninegag_suitable(url: Seq<char>) -> bool {
    url_domain(url) == Some("9gag.com"@)
}

/// `s` without the suffix `suffix`, where it ends with it.
pub open spec fn without_suffix(s: Seq<char>, suffix: Seq<char>) -> Seq<char> {
    if ends_with(s, suffix) {
        s.take(s.len() - suffix.len())
    } else {
        s
    }
}

/// The page's title without the site's name behind it.
pub open spec fn page_title(doc: Seq<char>) -> Option<Seq<char>> {
    let titles = selected_texts(doc, "title"@);
    if titles.len() > 0 {
        Some(without_suffix(titles[0], " - 9GAG"@))
    } else {
        None
    }
}

/// The first of `scripts` that holds `JSON.parse`.
pub open spec fn first_json_script(scripts: Seq<Seq<char>>) -> Option<Seq<char>>
    decreases scripts.len(),
{
    if scripts.len() == 0 {
        None
    } else {
        match first_json_script(scripts.drop_last()) {
            Some(s) => Some(s),
            None => if contains(scripts.last(), "JSON.parse"@) {
                Some(scripts.last())
            } else {
                None
            },
        }
    }
}

/// The JSON text inside the script: the script without backslashes, less its first 29
/// and last 3 bytes, which wrap the JSON in a call.
pub open spec fn script_payload(script: Seq<char>) -> Option<Seq<u8>> {
    let b = encode_utf8(replaced(script, "\\"@, ""@));
    if b.len() >= 32 {
        Some(b.subrange(29, b.len() - 3))
    } else {
        None
    }
}

/// The document that the page's script holds.
pub open spec fn page_document(doc: Seq<char>) -> Option<Json> {
    match first_json_script(selected_texts(doc, "script"@)) {
        Some(script) => match script_payload(script) {
            Some(b) => json_parsed_bytes(b),
            None => None,
        },
        None => None,
    }
}

/// The post object of the document.
pub open spec fn post_object(doc: Json) -> Option<Json> {
    object_in(get_in(get(doc, "data"@), "post"@))
}

/// The URL at `u`, as a video.
pub open spec fn video_at(u: Option<Seq<char>>) -> Option<MediaView> {
    match u {
        Some(s) => match url_href(s) {
            Some(h) => Some(MediaView::Video(h)),
            None => None,
        },
        None => None,
    }
}

/// The media of a post by its type: a photo's 700 pixel image; an animation's video,
/// with watermark where there is one, else without; else the VP9 video.
pub open spec fn ninegag_media(post: Json) -> Option<MediaView> {
    match str_in(get(post, "type"@)) {
        None => None,
        Some(t) => if t == "Photo"@ {
            match str_in(get_in(get_in(get(post, "images"@), "image700"@), "url"@)) {
                Some(u) => match url_href(u) {
                    Some(h) => Some(MediaView::Image(h)),
                    None => None,
                },
                None => None,
            }
        } else if t == "Animated"@ {
            let imgs = object_in(get(post, "images"@));
            let alt = match get_in(imgs, "image460svwm"@) {
                Some(a) => Some(a),
                None => get_in(imgs, "image460sv"@),
            };
            video_at(str_in(get_in(alt, "url"@)))
        } else {
            video_at(str_in(get(post, "vp9Url"@)))
        },
    }
}

/// What the post read from a document holds.
pub open spec fn ninegag_post(url: Seq<char>, title: Seq<char>, doc: Json, p: Post) -> bool {
    &&& p.common.src@ == url
    &&& p.common.origin@ == "9gag.com"@
    &&& p.common.title@ == title
    &&& p.common.text@ == Seq::<char>::empty()
    &&& !p.common.nsfw
    &&& !p.common.spoiler
    &&& p.common.comment is None
    &&& Some(media_view(p.specialized)) == ninegag_media(post_object(doc)->0)
}

/// Whether a document yields a post.
pub open spec fn ninegag_ok(doc: Json) -> bool {
    post_object(doc) is Some && ninegag_media(post_object(doc)->0) is Some
}

fn video_of(u: Result<String, ScrapeError>) -> (r: Result<PostSpecializedData, ScrapeError>)
    requires
        u is Err ==> u->Err_0 is Json || u->Err_0 is BadUrl,
    ensures
        match r {
            Ok(m) => video_at(match u { Ok(s) => Some(s@), Err(_) => None }) == Some(media_view(m)),
            Err(e) => video_at(match u { Ok(s) => Some(s@), Err(_) => None }) is None && (e is Json || e is BadUrl),
        },
{
    let s = u?;
    match WebUrl::parse(s.as_str()) {
        Some(h) => Ok(PostSpecializedData::Video { video_url: h }),
        None => Err(ScrapeError::BadUrl),
    }
}

fn str_at(v: &Json, key: &str) -> (r: Result<String, ScrapeError>)
    ensures
        match r {
            Ok(s) => str_in(get(*v, key@)) == Some(s@),
            Err(e) => str_in(get(*v, key@)) is None && (e is Json || e is BadUrl),
        },
{
    let x = nav(json_key(v, key))?;
    let s = nav(json_str(x))?;
    Ok(s.clone())
}

fn media(post: &Json) -> (r: Result<PostSpecializedData, ScrapeError>)
    ensures
        match r {
            Ok(m) => ninegag_media(*post) == Some(media_view(m)),
            Err(e) => ninegag_media(*post) is None && (e is Json || e is BadUrl),
        },
{
    let t = str_at(post, "type")?;
    if str_eq(t.as_str(), "Photo") {
        let images = nav(json_key(post, "images"))?;
        let img = nav(json_key(images, "image700"))?;
        let u = str_at(img, "url")?;
        match WebUrl::parse(u.as_str()) {
            Some(h) => Ok(PostSpecializedData::Image { img_url: h }),
            None => Err(ScrapeError::BadUrl),
        }
    } else if str_eq(t.as_str(), "Animated") {
        let images = nav(json_key(post, "images"))?;
        let imgs = nav(json_object(images))?;
        let alt = match json_key(imgs, "image460svwm") {
            Ok(a) => a,
            Err(_) => nav(json_key(imgs, "image460sv"))?,
        };
        video_of(str_at(alt, "url"))
    } else {
        video_of(str_at(post, "vp9Url"))
    }
}

impl Api {
    /// A 9GAG scraper with the given settings.
    pub fn from_settings(_settings: ApiSettings) -> (r: Api) {
        Api
    }

    /// Whether `url` is on 9GAG.
    pub fn is_suitable(&self, url: &WebUrl) -> (r: bool)
        ensures
            r == ninegag_suitable(url@),
    {
        match url.domain() {
            Some(d) => str_eq(d.as_str(), "9gag.com"),
            None => false,
        }
    }

    /// Reads the post at `url`, titled `title`, out of the document of its page.
    pub fn analyze_post(url: &WebUrl, title: &str, doc: &Json) -> (r: Result<Post, ScrapeError>)
        ensures
            r is Ok <==> ninegag_ok(*doc),
            r is Ok ==> ninegag_post(url@, title@, *doc, r->Ok_0) && r->Ok_0.wf(),
            r is Err ==> r->Err_0 is Json || r->Err_0 is BadUrl,
    {
        let data = nav(json_key(doc, "data"))?;
        let p = nav(json_key(data, "post"))?;
        let post = nav(json_object(p))?;
        let specialized = media(post)?;
        proof {
            reveal_strlit("9gag.com");
        }
        let common = PostCommonData {
            src: url.duplicate(),
            origin: String::from_str("9gag.com"),
            title: String::from_str(title),
            text: String::new(),
            nsfw: false,
            spoiler: false,
            comment: None,
        };
        Ok(Post { common, specialized })
    }

    /// Reads the post at `url` out of its page: the title, and the document that a
    /// script of the page hands to `JSON.parse`.
    pub fn analyze_page(url: &WebUrl, page: &str) -> (r: Result<Post, ScrapeError>)
        ensures
            r is Ok <==> page_title(page@) is Some && page_document(page@) is Some && ninegag_ok(
                page_document(page@)->0,
            ),
            r is Ok ==> ninegag_post(url@, page_title(page@)->0, page_document(page@)->0, r->Ok_0)
                && r->Ok_0.wf(),
            page_title(page@) is None ==> r == Err::<Post, ScrapeError>(ScrapeError::Missing(PagePart::Title)),
            page_title(page@) is Some && first_json_script(selected_texts(page@, "script"@)) is None
                ==> r == Err::<Post, ScrapeError>(ScrapeError::Missing(PagePart::Script)),
            page_title(page@) is Some && first_json_script(selected_texts(page@, "script"@)) is Some
                && page_document(page@) is None ==> r == Err::<Post, ScrapeError>(ScrapeError::NotJson),
            page_title(page@) is Some && page_document(page@) is Some && r is Err ==> r->Err_0 is Json
                || r->Err_0 is BadUrl,
    {
        let titles = texts(page, "title");
        if titles.len() == 0 {
            return Err(ScrapeError::Missing(PagePart::Title));
        }
        let title = strip_suffix(titles[0].as_str(), " - 9GAG");
        let scripts = texts(page, "script");
        let ghost sv = scripts@.map_values(|t: String| t@);
        let mut i: usize = 0;
        let mut found: Option<usize> = None;
        while i < scripts.len() && found.is_none()
            invariant
                sv == scripts@.map_values(|t: String| t@),
                0 <= i <= scripts.len(),
                found is None ==> first_json_script(sv.take(i as int)) is None,
                found is Some ==> found->0 < scripts.len() && first_json_script(sv) == Some(sv[found->0 as int]),
            decreases scripts.len() - i + (if found is None { 1int } else { 0int }),
        {
            assert(sv.take(i + 1).drop_last() =~= sv.take(i as int));
            if str_contains(scripts[i].as_str(), "JSON.parse") {
                proof {
                    lemma_first_script_prefix(sv, i + 1);
                }
                found = Some(i);
            } else {
                i += 1;
            }
        }
        let k = match found {
            Some(k) => k,
            None => {
                assert(sv.take(i as int) =~= sv);
                return Err(ScrapeError::Missing(PagePart::Script));
            },
        };
        let script = replace_all(scripts[k].as_str(), "\\", "");
        let bytes = script.as_str().as_bytes();
        let n = bytes.len();
        if n < 32 {
            return Err(ScrapeError::NotJson);
        }
        let payload = slice_subrange(bytes, 29, n - 3);
        let doc = match Json::parse_slice(payload) {
            Some(d) => d,
            None => return Err(ScrapeError::NotJson),
        };
        Self::analyze_post(url, title.as_str(), &doc)
    }
}

proof fn lemma_first_script_prefix(scripts: Seq<Seq<char>>, n: int)
    requires
        0 < n <= scripts.len(),
        first_json_script(scripts.take(n - 1)) is None,
        contains(scripts[n - 1], "JSON.parse"@),
    ensures
        first_json_script(scripts) == Some(scripts[n - 1]),
    decreases scripts.len(),
{
    if n < scripts.len() {
        assert(scripts.drop_last().take(n - 1) =~= scripts.take(n - 1));
        lemma_first_script_prefix(scripts.drop_last(), n);
    } else {
        assert(scripts.drop_last() =~= scripts.take(n - 1));
    }
}

/// `s` without the suffix `suffix`, where it ends with it.
pub fn strip_suffix(s: &str, suffix: &str) -> (r: String)
    ensures
        r@ == without_suffix(s@, suffix@),
{
    let n = s.unicode_len();
    let m = suffix.unicode_len();
    if m <= n {
        let tail = s.substring_char(n - m, n);
        if str_eq(tail, suffix) {
            return String::from_str(s.substring_char(0, n - m));
        }
    }
    String::from_str(s)
}

} // verus!
