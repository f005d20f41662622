//! The post model that every scraper produces, and the scrapers themselves.
pub mod imgur;
pub mod ninegag;
pub mod reddit;
pub mod twitter;
pub mod util;

use crate::json::{nav_error_text, JsonNavError};
use crate::web_url::WebUrl;
use vstd::prelude::*;
use vstd::string::StringExecFns;

verus! {

/// A remote user's comment attached to a post.
#[derive(Clone, Debug, PartialEq, Eq)]
pub struct Comment {
    pub author: String,
    pub text: String,
}

/// What every post has, whatever its media.
#[derive(Clone, Debug, PartialEq, Eq)]
pub struct PostCommonData {
    pub src: WebUrl,
    pub origin: String,
    pub title: String,
    pub text: String,
    pub nsfw: bool,
    pub spoiler: bool,
    pub comment: Option<Comment>,
}

/// The primary media of a post.
#[derive(Clone, Debug, PartialEq, Eq)]
pub enum PostSpecializedData {
    TextOnly,
    Gallery { img_urls: Vec<WebUrl> },
    Image { img_url: WebUrl },
    Video { video_url: WebUrl },
    VideoThumbnail { thumbnail_url: WebUrl },
}

/// One scraped post.
#[derive(Clone, Debug, PartialEq, Eq)]
pub struct Post {
    pub common: PostCommonData,
    pub specialized: PostSpecializedData,
}

impl Post {
    /// A post is well formed when its origin is named and a gallery holds at least two
    /// images.
    pub open spec fn wf(&self) -> bool {
        &&& self.common.origin@.len() > 0
        &&& match self.specialized {
            PostSpecializedData::Gallery { img_urls } => img_urls@.len() >= 2,
            _ => true,
        }
    }
}

/// What a post's media is, as text.
pub enum MediaView {
    TextOnly,
    Gallery(Seq<Seq<char>>),
    Image(Seq<char>),
    Video(Seq<char>),
    VideoThumbnail(Seq<char>),
}

/// The URLs of `urls`, as text.
pub open spec fn urls_view(urls: Seq<WebUrl>) -> Seq<Seq<char>> {
    urls.map_values(|u: WebUrl| u@)
}

/// The media of `s`, as text.
pub open spec fn media_view(s: PostSpecializedData) -> MediaView {
    match s {
        PostSpecializedData::TextOnly => MediaView::TextOnly,
        PostSpecializedData::Gallery { img_urls } => MediaView::Gallery(urls_view(img_urls@)),
        PostSpecializedData::Image { img_url } => MediaView::Image(img_url@),
        PostSpecializedData::Video { video_url } => MediaView::Video(video_url@),
        PostSpecializedData::VideoThumbnail { thumbnail_url } => MediaView::VideoThumbnail(
            thumbnail_url@,
        ),
    }
}

/// A comment, as its author and text.
pub open spec fn comment_view(c: Option<Comment>) -> Option<(Seq<char>, Seq<char>)> {
    match c {
        Some(c) => Some((c.author@, c.text@)),
        None => None,
    }
}

/// The name of a part of a page, as error messages give it.
pub open spec fn part_name(p: PagePart) -> Seq<char> {
    match p {
        PagePart::Title => "title"@,
        PagePart::Script => "script with the post's data"@,
        PagePart::ImageLink => "link to its image"@,
        PagePart::Author => "author in its URL"@,
        PagePart::VideoSource => "video source"@,
        PagePart::VideoPoster => "video poster"@,
    }
}

/// What a scrape error says.
pub open spec fn scrape_error_text(e: ScrapeError) -> Seq<char> {
    match e {
        ScrapeError::Json(n) => "unexpected document: "@ + nav_error_text(n),
        ScrapeError::NotJson => "document is not JSON"@,
        ScrapeError::BadUrl => "not a valid URL"@,
        ScrapeError::Missing(p) => "page has no "@ + part_name(p),
        ScrapeError::Fetch(m) => "fetch failed: "@ + m@,
    }
}

impl PagePart {
    /// The name of the part.
    pub fn name(&self) -> (r: &'static str)
        ensures
            r@ == part_name(*self),
    {
        match self {
            PagePart::Title => "title",
            PagePart::Script => "script with the post's data",
            PagePart::ImageLink => "link to its image",
            PagePart::Author => "author in its URL",
            PagePart::VideoSource => "video source",
            PagePart::VideoPoster => "video poster",
        }
    }
}

impl ScrapeError {
    /// A message that says what failed: the failing step and expected shape of a JSON
    /// document, the missing part of a page, or the transport's message.
    pub fn describe(&self) -> (r: String)
        ensures
            r@ == scrape_error_text(*self),
    {
        match self {
            ScrapeError::Json(n) => {
                let mut r = String::from_str("unexpected document: ");
                r.append(n.describe().as_str());
                r
            },
            ScrapeError::NotJson => String::from_str("document is not JSON"),
            ScrapeError::BadUrl => String::from_str("not a valid URL"),
            ScrapeError::Missing(p) => {
                let mut r = String::from_str("page has no ");
                r.append(p.name());
                r
            },
            ScrapeError::Fetch(m) => {
                let mut r = String::from_str("fetch failed: ");
                r.append(m.as_str());
                r
            },
        }
    }
}

/// Turns a navigation failure into a scrape failure.
pub fn nav<T>(r: Result<T, JsonNavError>) -> (o: Result<T, ScrapeError>)
    ensures
        match r {
            Ok(x) => o == Ok::<T, ScrapeError>(x),
            Err(e) => o == Err::<T, ScrapeError>(ScrapeError::Json(e)),
        },
{
    match r {
        Ok(x) => Ok(x),
        Err(e) => Err(ScrapeError::Json(e)),
    }
}

/// A part of a fetched page that a scraper looks for.
#[derive(Clone, Copy, Debug, PartialEq, Eq)]
pub enum PagePart {
    Title,
    Script,
    ImageLink,
    Author,
    VideoSource,
    VideoPoster,
}

/// Why a fetched document could not be turned into a post.
#[derive(Clone, Debug, PartialEq, Eq)]
pub enum ScrapeError {
    /// A field of a JSON document is missing or of the wrong shape.
    Json(JsonNavError),
    /// Text that should be JSON is not.
    NotJson,
    /// Text that should be an absolute URL is not.
    BadUrl,
    /// The page lacks a part that the scraper needs.
    Missing(PagePart),
    /// Fetching the document failed; the transport's message.
    Fetch(String),
}

} // verus!
