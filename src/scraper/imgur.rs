//! Imgur (kept for old links; Imgur's pages change often): a page is turned into a post.
use crate::html::{attrs, selected_attrs, selected_texts, texts};
use crate::scraper::ninegag::{strip_suffix, without_suffix};
use crate::scraper::{media_view, MediaView, PagePart, Post, PostCommonData, PostSpecializedData, ScrapeError};
use crate::text::{contains, str_contains, str_trim_start, trim_start};
use crate::web_url::{url_domain, url_href, WebUrl};
use vstd::prelude::*;
use vstd::string::StringExecFns;

verus! {

/// The Imgur scraper.
#[derive(Clone, Copy, Debug, Default, PartialEq, Eq)]
pub struct ImgurAPI;

/// Whether `url` is on Imgur.
pub open spec fn imgur_suitable(url: Seq<char>) -> bool {
    match url_domain(url) {
        Some(d) => contains(d, "imgur.com"@),
        None => false,
    }
}

/// The page's title without leading white space and without the site's name behind it.
pub open spec fn imgur_title(doc: Seq<char>) -> Option<Seq<char>> {
    let titles = selected_texts(doc, "title"@);
    if titles.len() > 0 {
        Some(without_suffix(trim_start(titles[0]), " - Imgur"@))
    } else {
        None
    }
}

/// The address of the first link to the page's image source.
pub open spec fn first_link(doc: Seq<char>) -> Option<Seq<char>> {
    let links = selected_attrs(doc, "link[rel=\"image_src\"]"@, "href"@);
    if links.len() > 0 {
        links[0]
    } else {
        None
    }
}

/// The image that the page links as its image source.
pub open spec fn imgur_image(doc: Seq<char>) -> Option<Seq<char>> {
    match first_link(doc) {
        Some(h) => url_href(h),
        None => None,
    }
}

impl ImgurAPI {
    /// Whether `url` is on Imgur.
    pub fn is_suitable(&self, url: &WebUrl) -> (r: bool)
        ensures
            r == imgur_suitable(url@),
    {
        match url.domain() {
            Some(d) => str_contains(d.as_str(), "imgur.com"),
            None => false,
        }
    }

    /// Reads the image post at `url` out of its page.
    pub fn analyze_page(url: &WebUrl, page: &str) -> (r: Result<Post, ScrapeError>)
        ensures
            r is Ok <==> imgur_title(page@) is Some && imgur_image(page@) is Some,
            r is Ok ==> {
                let p = r->Ok_0;
                &&& p.common.src@ == url@
                &&& p.common.origin@ == "imgur.com"@
                &&& p.common.title@ == imgur_title(page@)->0
                &&& p.common.text@ == Seq::<char>::empty()
                &&& !p.common.nsfw
                &&& !p.common.spoiler
                &&& p.common.comment is None
                &&& media_view(p.specialized) == MediaView::Image(imgur_image(page@)->0)
                &&& p.wf()
            },
            imgur_title(page@) is None ==> r == Err::<Post, ScrapeError>(ScrapeError::Missing(PagePart::Title)),
            imgur_title(page@) is Some && first_link(page@) is None ==> r == Err::<Post, ScrapeError>(
                ScrapeError::Missing(PagePart::ImageLink),
            ),
            imgur_title(page@) is Some && first_link(page@) is Some && imgur_image(page@) is None
                ==> r == Err::<Post, ScrapeError>(ScrapeError::BadUrl),
    {
        let titles = texts(page, "title");
        if titles.len() == 0 {
            return Err(ScrapeError::Missing(PagePart::Title));
        }
        let trimmed = str_trim_start(titles[0].as_str());
        let title = strip_suffix(trimmed.as_str(), " - Imgur");
        let links = attrs(page, "link[rel=\"image_src\"]", "href");
        if links.len() == 0 {
            return Err(ScrapeError::Missing(PagePart::ImageLink));
        }
        let img_url = match &links[0] {
            Some(h) => match WebUrl::parse(h.as_str()) {
                Some(u) => u,
                None => return Err(ScrapeError::BadUrl),
            },
            None => return Err(ScrapeError::Missing(PagePart::ImageLink)),
        };
        proof {
            reveal_strlit("imgur.com");
        }
        let common = PostCommonData {
            src: url.duplicate(),
            origin: String::from_str("imgur.com"),
            title,
            text: String::new(),
            nsfw: false,
            spoiler: false,
            comment: None,
        };
        Ok(Post { common, specialized: PostSpecializedData::Image { img_url } })
    }
}

} // verus!
