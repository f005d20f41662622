use embedbot::embed_bot::{parse_message, select_embed_behaviour, EmbedBot, Error, Scraper};
use embedbot::json::Json;
use embedbot::scraper::imgur::ImgurAPI;
use embedbot::scraper::{ninegag, reddit, twitter, PagePart, PostSpecializedData, ScrapeError};
use embedbot::settings::{EmbedBehaviour, EmbedBehaviours};
use embedbot::web_url::WebUrl;

fn url(s: &str) -> WebUrl {
    WebUrl::parse(s).unwrap()
}

fn behaviours() -> EmbedBehaviours {
    EmbedBehaviours {
        nsfw: EmbedBehaviour { default: false, allow_override: true },
        spoiler: EmbedBehaviour { default: true, allow_override: false },
    }
}

fn bot() -> EmbedBot {
    let mut bot = EmbedBot::from_settings(behaviours());
    bot.register_api(Scraper::Reddit(reddit::Api::from_settings(reddit::ApiSettings {})));
    bot.register_api(Scraper::NineGag(ninegag::Api::from_settings(ninegag::ApiSettings {})));
    bot.register_api(Scraper::Twitter(twitter::Api::from_settings(twitter::ApiSettings { chrome_executable: None })));
    bot.register_api(Scraper::Imgur(ImgurAPI));
    bot
}

#[test]
fn registry_picks_the_first_suitable_scraper() {
    let b = bot();
    assert_eq!(b.find_api(&url("https://www.reddit.com/r/a")), Some(0));
    assert_eq!(b.find_api(&url("https://9gag.com/gag/x")), Some(1));
    assert_eq!(b.find_api(&url("https://x.com/user/status/1")), Some(2));
    assert_eq!(b.find_api(&url("https://i.imgur.com/x")), Some(3));
    let (i, u) = b.scrape_target(&url("https://twitter.com/user/status/1#m")).unwrap();
    assert_eq!(i, 2);
    assert_eq!(u.as_str(), "https://twitter.com/user/status/1");
}

#[test]
fn registry_without_match_has_no_scraper() {
    let b = bot();
    assert_eq!(b.find_api(&url("https://example.com/post")), None);
    assert_eq!(b.scrape_target(&url("https://example.com/post")), Err(Error::NoScraperAvailable));
    let empty = EmbedBot::from_settings(behaviours());
    assert_eq!(empty.scrape_target(&url("https://www.reddit.com/r/a")), Err(Error::NoScraperAvailable));
    assert_eq!(Error::NoScraperAvailable.describe(), "No scraper available");
    assert_eq!(Error::PostScrapeFailed(ScrapeError::NotJson).describe(), "Unable to scrape post: document is not JSON");
    let nav = embedbot::json::JsonNavError::NotFound { segment: embedbot::json::Segment::Index(12) };
    assert_eq!(
        Error::PostScrapeFailed(ScrapeError::Json(nav)).describe(),
        "Unable to scrape post: unexpected document: missing element 12"
    );
    let key = embedbot::json::JsonNavError::NotFound { segment: embedbot::json::Segment::Key("title".to_owned()) };
    assert_eq!(ScrapeError::Json(key).describe(), "unexpected document: missing member \"title\"");
    let shape = embedbot::json::JsonNavError::TypeMismatch { expected: embedbot::json::Shape::Object };
    assert_eq!(shape.describe(), "expected object");
    assert_eq!(ScrapeError::Missing(PagePart::Title).describe(), "page has no title");
    assert_eq!(ScrapeError::Fetch("timeout".to_owned()).describe(), "fetch failed: timeout");
}

#[test]
fn override_applies_only_where_allowed() {
    let b = behaviours();
    assert!(select_embed_behaviour(&b.nsfw, Some(true)));
    assert!(!select_embed_behaviour(&b.nsfw, None));
    assert!(select_embed_behaviour(&b.spoiler, Some(false)));
    assert!(select_embed_behaviour(&b.spoiler, None));
}

#[test]
fn freeform_message_splits_url_and_comment() {
    let (u, c) = parse_message("https://www.reddit.com/r/a");
    assert_eq!(u.unwrap().as_str(), "https://www.reddit.com/r/a");
    assert_eq!(c, None);
    let (u, c) = parse_message("look at this\n\nhttps://9gag.com/gag/x\nso funny\nhttps://x.com/y");
    assert_eq!(u.unwrap().as_str(), "https://9gag.com/gag/x");
    assert_eq!(c.as_deref(), Some("look at this\nso funny"));
    assert_eq!(parse_message(""), (None, None));
    let (u, c) = parse_message("first\r\nhttps://9gag.com/gag/y\r\n\r\nlast\r\n");
    assert_eq!(u.unwrap().as_str(), "https://9gag.com/gag/y");
    assert_eq!(c.as_deref(), Some("first\nlast"));
}

fn ninegag_doc(post: &str) -> Json {
    Json::parse(&format!(r#"{{"data":{{"post":{post}}}}}"#)).unwrap()
}

#[test]
fn ninegag_animated_prefers_watermarked_video() {
    let u = url("https://9gag.com/gag/abc");
    let doc = ninegag_doc(
        r#"{"type":"Animated","images":{"image460sv":{"url":"https://img-9gag-fun.9cache.com/photo/abc_460sv.mp4"},"image460svwm":{"url":"https://img-9gag-fun.9cache.com/photo/abc_460svwm.webm"}}}"#,
    );
    let p = ninegag::Api::analyze_post(&u, "Funny", &doc).unwrap();
    assert_eq!(
        p.specialized,
        PostSpecializedData::Video { video_url: url("https://img-9gag-fun.9cache.com/photo/abc_460svwm.webm") }
    );
    let doc = ninegag_doc(
        r#"{"type":"Animated","images":{"image460sv":{"url":"https://img-9gag-fun.9cache.com/photo/abc_460sv.mp4"}}}"#,
    );
    let p = ninegag::Api::analyze_post(&u, "Funny", &doc).unwrap();
    assert_eq!(p.specialized, PostSpecializedData::Video { video_url: url("https://img-9gag-fun.9cache.com/photo/abc_460sv.mp4") });
    assert_eq!(p.common.origin, "9gag.com");
    assert_eq!(p.common.title, "Funny");
}

#[test]
fn ninegag_photo_and_other_types() {
    let u = url("https://9gag.com/gag/abc");
    let doc = ninegag_doc(r#"{"type":"Photo","images":{"image700":{"url":"https://img-9gag-fun.9cache.com/photo/abc_700b.jpg"}}}"#);
    let p = ninegag::Api::analyze_post(&u, "t", &doc).unwrap();
    assert_eq!(p.specialized, PostSpecializedData::Image { img_url: url("https://img-9gag-fun.9cache.com/photo/abc_700b.jpg") });
    let doc = ninegag_doc(r#"{"type":"Video","vp9Url":"https://img-9gag-fun.9cache.com/photo/abc.webm"}"#);
    let p = ninegag::Api::analyze_post(&u, "t", &doc).unwrap();
    assert_eq!(p.specialized, PostSpecializedData::Video { video_url: url("https://img-9gag-fun.9cache.com/photo/abc.webm") });
    let doc = ninegag_doc(r#"{"type":"Animated","images":{}}"#);
    assert!(matches!(ninegag::Api::analyze_post(&u, "t", &doc), Err(ScrapeError::Json(_))));
}

#[test]
fn ninegag_page_is_read() {
    let page = r#"<html><head><title>So funny - 9GAG</title></head><body><script>var x = 1;</script><script>window._config = JSON.parse("{\"data\":{\"post\":{\"type\":\"Photo\",\"images\":{\"image700\":{\"url\":\"https:\/\/img.9cache.com\/a.jpg\"}}}}}");</script></body></html>"#;
    let p = ninegag::Api::analyze_page(&url("https://9gag.com/gag/a"), page).unwrap();
    assert_eq!(p.common.title, "So funny");
    assert_eq!(p.specialized, PostSpecializedData::Image { img_url: url("https://img.9cache.com/a.jpg") });
    let bare = "<html><head><title>x</title></head><body></body></html>";
    assert_eq!(ninegag::Api::analyze_page(&url("https://9gag.com/gag/a"), bare), Err(ScrapeError::Missing(PagePart::Script)));
    let broken = r#"<html><head><title>x</title></head><body><script>window._config = JSON.parse("{oops");</script></body></html>"#;
    assert_eq!(ninegag::Api::analyze_page(&url("https://9gag.com/gag/a"), broken), Err(ScrapeError::NotJson));
}

#[test]
fn twitter_page_is_read() {
    let page = r#"<html><body><article><div data-testid="tweetText"><span>Hello </span><span>…</span><span>world</span></div><img alt="Image" src="https://pbs.twimg.com/media/A.jpg"><img alt="" src="https://pbs.twimg.com/media/skip.jpg"><img alt="Avatar" src="https://pbs.twimg.com/profile/p.jpg"></article></body></html>"#;
    let p = twitter::Api::analyze_page(&url("https://x.com/someone/status/1"), page).unwrap();
    assert_eq!(p.common.title, "@someone");
    assert_eq!(p.common.text, "Hello world");
    assert_eq!(p.common.origin, "twitter.com");
    assert_eq!(p.specialized, PostSpecializedData::Image { img_url: url("https://pbs.twimg.com/media/A.jpg") });

    let video = r#"<html><body><article><video poster="https://pbs.twimg.com/thumb.jpg" type="video/webm"></video></article></body></html>"#;
    let p = twitter::Api::analyze_page(&url("https://twitter.com/a/status/2"), video).unwrap();
    assert_eq!(p.specialized, PostSpecializedData::VideoThumbnail { thumbnail_url: url("https://pbs.twimg.com/thumb.jpg") });

    let text = "<html><body><article><p>hi</p></article></body></html>";
    let p = twitter::Api::analyze_page(&url("https://twitter.com/a/status/3"), text).unwrap();
    assert_eq!(p.specialized, PostSpecializedData::TextOnly);
    assert_eq!(p.common.text, "");
}

#[test]
fn imgur_page_is_read() {
    let page = r#"<html><head><title>
  My cat - Imgur</title><link rel="image_src" href="https://i.imgur.com/cat.jpg"></head><body></body></html>"#;
    let p = ImgurAPI::analyze_page(&url("https://imgur.com/gallery/cat"), page).unwrap();
    assert_eq!(p.common.title, "My cat");
    assert_eq!(p.specialized, PostSpecializedData::Image { img_url: url("https://i.imgur.com/cat.jpg") });
    assert!(ImgurAPI.is_suitable(&url("https://i.imgur.com/cat.jpg")));
    let no_title = "<html><body></body></html>";
    assert_eq!(ImgurAPI::analyze_page(&url("https://imgur.com/a"), no_title), Err(ScrapeError::Missing(PagePart::Title)));
    let bad = r#"<html><head><title>t</title><link rel="image_src" href="nope"></head></html>"#;
    assert_eq!(ImgurAPI::analyze_page(&url("https://imgur.com/a"), bad), Err(ScrapeError::BadUrl));
}
