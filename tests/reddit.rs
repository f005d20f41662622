use embedbot::json::Json;
use embedbot::scraper::reddit::{canonical_post_url, json_endpoint, Api, ApiSettings};
use embedbot::scraper::{Comment, Post, PostCommonData, PostSpecializedData, ScrapeError};
use embedbot::web_url::WebUrl;

fn url(s: &str) -> WebUrl {
    WebUrl::parse(s).unwrap()
}

fn listing(post: &str, comment: &str) -> Json {
    let text = format!(
        r#"[{{"kind":"Listing","data":{{"children":[{{"kind":"t3","data":{post}}}]}}}},{{"kind":"Listing","data":{{"children":[{comment}]}}}}]"#
    );
    Json::parse(&text).unwrap()
}

#[test]
fn image_post() {
    let json = listing(
        r#"{"title":"A very rare Irrawaddy Dolphin, only 92 are estimated to still exist. These dolphins have a bulging forehead, short beak, and 12-19 teeth on each side of both jaws.","subreddit":"Awwducational","selftext":"","link_flair_text":"Not yet verified","over_18":false,"spoiler":false,"thumbnail":"https://b.thumbs.redditmedia.com/oi687m.jpg","secure_media":null,"url":"https://i.redd.it/bsp1l1vynla71.jpg"}"#,
        "",
    );

    let src = "https://www.reddit.com/r/Awwducational/comments/oi687m/a_very_rare_irrawaddy_dolphin_only_92_are/";
    let post = Api::analyze_post(&url(src), &json).unwrap();

    let expected = Post {
        common: PostCommonData {
            src: url("https://www.reddit.com/r/Awwducational/comments/oi687m/a_very_rare_irrawaddy_dolphin_only_92_are/"),
            origin: "reddit.com/r/Awwducational".to_owned(),
            title: "A very rare Irrawaddy Dolphin, only 92 are estimated to still exist. These dolphins have a bulging forehead, short beak, and 12-19 teeth on each side of both jaws. [Not yet verified]".to_owned(),
            text: "".to_owned(),
            nsfw: false,
            spoiler: false,
            comment: None,
        },
        specialized: PostSpecializedData::Image { img_url: url("https://i.redd.it/bsp1l1vynla71.jpg") },
    };

    assert_eq!(expected, post);
}

#[test]
fn video_post() {
    let json = listing(
        r#"{"title":"Mama cat wants her kitten to be friends with human baby.","subreddit":"aww","selftext":"","link_flair_text":null,"over_18":false,"spoiler":false,"thumbnail":"https://b.thumbs.redditmedia.com/oi6lfk.jpg","secure_media":{"reddit_video":{"fallback_url":"https://v.redd.it/jx4ua6lirla71/DASH_1080.mp4?source=fallback","height":1080}},"url":"https://v.redd.it/jx4ua6lirla71"}"#,
        "",
    );

    let src = "https://www.reddit.com/r/aww/comments/oi6lfk/mama_cat_wants_her_kitten_to_be_friends_with/";
    let post = Api::analyze_post(&url(src), &json).unwrap();

    let expected = Post {
        common: PostCommonData {
            src: url("https://www.reddit.com/r/aww/comments/oi6lfk/mama_cat_wants_her_kitten_to_be_friends_with/"),
            origin: "reddit.com/r/aww".to_owned(),
            title: "Mama cat wants her kitten to be friends with human baby.".to_owned(),
            text: "".to_owned(),
            nsfw: false,
            spoiler: false,
            comment: None,
        },
        specialized: PostSpecializedData::Video {
            video_url: url("https://v.redd.it/jx4ua6lirla71/DASH_1080.mp4?source=fallback"),
        },
    };

    assert_eq!(expected, post);
}

#[test]
fn gallery_post() {
    let json = listing(
        r#"{"title":"Lian li o11D XL with 2x 3090 SLI triple radiator. done for now will upgrade the motherboard and cpu to threadripper in future. this case is solid!","subreddit":"watercooling","selftext":"","link_flair_text":"Build Complete","over_18":false,"spoiler":false,"thumbnail":"https://b.thumbs.redditmedia.com/ohvv5w.jpg","secure_media":null,"url":"https://www.reddit.com/gallery/ohvv5w","media_metadata":{"wrro81ytsha71":{"status":"valid","s":{"y":3000,"x":4000,"u":"https://preview.redd.it/wrro81ytsha71.jpg?width=4000&amp;format=pjpg&amp;auto=webp&amp;s=5f1a86f3783d7ae290f733083b2af4397332c1be"}},"nuwtn1ytsha71":{"status":"valid","s":{"y":2907,"x":3876,"u":"https://preview.redd.it/nuwtn1ytsha71.jpg?width=3876&amp;format=pjpg&amp;auto=webp&amp;s=7743bf4c3dbdff8e34c5a0a33d5171e4b485e1e5"}}}}"#,
        "",
    );

    let src = "https://www.reddit.com/r/watercooling/comments/ohvv5w/lian_li_o11d_xl_with_2x_3090_sli_triple_radiator/";
    let post = Api::analyze_post(&url(src), &json).unwrap();

    let expected = Post {
        common: PostCommonData {
            src: url("https://www.reddit.com/r/watercooling/comments/ohvv5w/lian_li_o11d_xl_with_2x_3090_sli_triple_radiator/"),
            origin: "reddit.com/r/watercooling".to_owned(),
            title: "Lian li o11D XL with 2x 3090 SLI triple radiator. done for now will upgrade the motherboard and cpu to threadripper in future. this case is solid! [Build Complete]".to_owned(),
            text: "".to_owned(),
            nsfw: false,
            spoiler: false,
            comment: None,
        },
        specialized: PostSpecializedData::Gallery {
            img_urls: vec![
                url("https://preview.redd.it/nuwtn1ytsha71.jpg?width=3876&format=pjpg&auto=webp&s=7743bf4c3dbdff8e34c5a0a33d5171e4b485e1e5"),
                url("https://preview.redd.it/wrro81ytsha71.jpg?width=4000&format=pjpg&auto=webp&s=5f1a86f3783d7ae290f733083b2af4397332c1be"),
            ],
        },
    };

    assert_eq!(expected, post);
}

#[test]
fn single_image_gallery_is_an_image() {
    let json = listing(
        r#"{"title":"t","subreddit":"pics","selftext":"","media_metadata":{"a":{"s":{"u":"https://preview.redd.it/a.jpg?x=1&amp;y=2"}}}}"#,
        "",
    );
    let post = Api::analyze_post(&url("https://www.reddit.com/r/pics/comments/x/t/"), &json).unwrap();
    assert_eq!(post.specialized, PostSpecializedData::Image { img_url: url("https://preview.redd.it/a.jpg?x=1&y=2") });
}

#[test]
fn crosspost_uses_original_post_and_labels_origin() {
    let json = listing(
        r#"{"title":"Top title","subreddit":"funny","selftext":"","crosspost_parent_list":[{"title":"Orig","subreddit":"pics","selftext":"a &amp;lt; b","link_flair_text":"OC","over_18":true,"spoiler":true,"url":"https://i.redd.it/x.png"}]}"#,
        "",
    );
    let post = Api::analyze_post(&url("https://www.reddit.com/r/funny/comments/abc/top/"), &json).unwrap();
    assert_eq!(post.common.origin, "reddit.com/r/funny [XPosted from r/pics]");
    assert_eq!(post.common.title, "Orig [OC]");
    assert_eq!(post.common.text, "a < b");
    assert!(post.common.nsfw);
    assert!(post.common.spoiler);
    assert_eq!(post.specialized, PostSpecializedData::Image { img_url: url("https://i.redd.it/x.png") });
}

#[test]
fn linked_comment_is_attached() {
    let json = listing(
        r#"{"title":"T","subreddit":"aww","selftext":"body","url":"https://www.reddit.com/r/aww/comments/abc/t/"}"#,
        r#"{"kind":"t1","data":{"id":"c1x","author":"someone","body":"nice &gt; bad"}}"#,
    );
    let post = Api::analyze_post(&url("https://www.reddit.com/r/aww/comments/abc/t/c1x/"), &json).unwrap();
    assert_eq!(
        post.common.comment,
        Some(Comment { author: "someone".to_owned(), text: "nice > bad".to_owned() })
    );
    assert_eq!(post.specialized, PostSpecializedData::TextOnly);

    let other = Api::analyze_post(&url("https://www.reddit.com/r/aww/comments/abc/t/"), &json).unwrap();
    assert_eq!(other.common.comment, None);

    let suffix_only = Api::analyze_post(&url("https://www.reddit.com/r/aww/comments/abc/t/xc1x/"), &json).unwrap();
    assert_eq!(suffix_only.common.comment, None);
}

#[test]
fn gifv_link_is_a_video_and_oembed_falls_back_to_thumbnail() {
    let json = listing(r#"{"title":"T","subreddit":"gifs","selftext":"","url":"https://i.imgur.com/abc.gifv"}"#, "");
    let post = Api::analyze_post(&url("https://www.reddit.com/r/gifs/comments/a/t/"), &json).unwrap();
    assert_eq!(post.specialized, PostSpecializedData::Video { video_url: url("https://i.imgur.com/abc.gifv") });

    let json = listing(
        r#"{"title":"T","subreddit":"videos","selftext":"","thumbnail":"https://b.thumbs.redditmedia.com/t.jpg","secure_media":{"oembed":{"thumbnail_url":"not a url"}}}"#,
        "",
    );
    let post = Api::analyze_post(&url("https://www.reddit.com/r/videos/comments/a/t/"), &json).unwrap();
    assert_eq!(post.specialized, PostSpecializedData::Image { img_url: url("https://b.thumbs.redditmedia.com/t.jpg") });
}

#[test]
fn missing_title_is_a_json_error() {
    let json = listing(r#"{"subreddit":"aww","selftext":""}"#, "");
    let r = Api::analyze_post(&url("https://www.reddit.com/r/aww/comments/a/t/"), &json);
    assert!(matches!(r, Err(ScrapeError::Json(_))));
}

#[test]
fn reddit_suitability_and_urls() {
    let api = Api::from_settings(ApiSettings {});
    assert!(api.is_suitable(&url("https://www.reddit.com/r/aww/")));
    assert!(api.is_suitable(&url("https://reddit.com/r/aww/")));
    assert!(!api.is_suitable(&url("https://old.reddit.com/r/aww/")));

    let requested = url("https://redd.it/abc");
    let landed = url("https://www.reddit.com/r/aww/comments/abc/t/");
    assert_eq!(canonical_post_url(&requested, Some(&landed)), landed);
    let gate = url("https://www.reddit.com/over18?dest=x");
    assert_eq!(canonical_post_url(&requested, Some(&gate)), requested);
    assert_eq!(canonical_post_url(&requested, None), requested);

    let (post_url, json_url) = json_endpoint(&url("https://www.reddit.com/r/aww/comments/abc/t/?utm=1")).unwrap();
    assert_eq!(post_url.as_str(), "https://www.reddit.com/r/aww/comments/abc/t/");
    assert_eq!(json_url.as_str(), "https://www.reddit.com/r/aww/comments/abc/t/.json");
}
