use embedbot::embed::{embed, error, fmt_title, Embed, EmbedField, EmbedOptions, Response};
use embedbot::scraper::{Comment, Post, PostCommonData, PostSpecializedData};
use embedbot::web_url::WebUrl;

fn url(s: &str) -> WebUrl {
    WebUrl::parse(s).unwrap()
}

fn post(specialized: PostSpecializedData, nsfw: bool, spoiler: bool, comment: Option<Comment>) -> Post {
    Post {
        common: PostCommonData {
            src: url("https://www.reddit.com/r/aww/comments/abc/t/"),
            origin: "reddit.com/r/aww".to_owned(),
            title: "Cute *cat*".to_owned(),
            text: "Body text".to_owned(),
            nsfw,
            spoiler,
            comment,
        },
        specialized,
    }
}

fn remote_comment() -> Option<Comment> {
    Some(Comment { author: "bob".to_owned(), text: "so_cute".to_owned() })
}

fn opts(comment: Option<&str>, embed_nsfw: bool, embed_spoiler: bool) -> EmbedOptions<'_> {
    EmbedOptions { comment, embed_nsfw, embed_spoiler }
}

#[test]
fn title_is_escaped_and_labelled() {
    let p = post(PostSpecializedData::TextOnly, false, false, None);
    assert_eq!(fmt_title(&p.common), "Cute \\*cat\\* - reddit.com/r/aww");
}

#[test]
fn long_title_is_limited_to_the_title_room() {
    let mut p = post(PostSpecializedData::TextOnly, false, false, None);
    p.common.title = "a".repeat(400);
    let t = fmt_title(&p.common);
    assert_eq!(t.len(), 256);
    assert!(t.ends_with(" [...] - reddit.com/r/aww"));
}

#[test]
fn nsfw_post_becomes_a_warning_embed() {
    let p = post(PostSpecializedData::Image { img_url: url("https://i.redd.it/a.jpg") }, true, false, remote_comment());
    let r = embed(&p, "alice", &opts(Some("look"), false, true));
    let expected = Response::Embed(Embed {
        title: Some("Cute \\*cat\\* - reddit.com/r/aww".to_owned()),
        description: Some("Warning NSFW: Click to view content".to_owned()),
        author: Some("alice".to_owned()),
        url: Some("https://www.reddit.com/r/aww/comments/abc/t/".to_owned()),
        image: None,
        footer: None,
        fields: vec![EmbedField { name: "Comment by alice".to_owned(), value: "look".to_owned(), inline: false }],
    });
    assert_eq!(r, expected);
}

#[test]
fn spoiler_keeps_the_remote_comment() {
    let p = post(PostSpecializedData::TextOnly, false, true, remote_comment());
    let r = embed(&p, "alice", &opts(None, false, false));
    match r {
        Response::Embed(e) => {
            assert_eq!(e.description.as_deref(), Some("Spoiler: Click to view content"));
            assert_eq!(
                e.fields,
                vec![EmbedField { name: "Comment by bob".to_owned(), value: "so\\_cute".to_owned(), inline: true }]
            );
            assert_eq!(e.image, None);
        },
        Response::Content(_) => panic!("expected an embed"),
    }
}

#[test]
fn allowed_nsfw_image_is_embedded_with_its_image() {
    let p = post(PostSpecializedData::Image { img_url: url("https://i.redd.it/a.jpg") }, true, false, remote_comment());
    let r = embed(&p, "alice", &opts(Some("c"), true, false));
    let expected = Response::Embed(Embed {
        title: Some("Cute \\*cat\\* - reddit.com/r/aww".to_owned()),
        description: Some("Body text".to_owned()),
        author: Some("alice".to_owned()),
        url: Some("https://www.reddit.com/r/aww/comments/abc/t/".to_owned()),
        image: Some("https://i.redd.it/a.jpg".to_owned()),
        footer: None,
        fields: vec![
            EmbedField { name: "Comment by alice".to_owned(), value: "c".to_owned(), inline: false },
            EmbedField { name: "Comment by bob".to_owned(), value: "so\\_cute".to_owned(), inline: true },
        ],
    });
    assert_eq!(r, expected);
}

#[test]
fn gallery_is_plain_text() {
    let p = post(
        PostSpecializedData::Gallery { img_urls: vec![url("https://i.redd.it/a.jpg"), url("https://i.redd.it/b.jpg")] },
        false,
        false,
        remote_comment(),
    );
    let r = embed(&p, "alice", &opts(Some("mine"), false, false));
    let expected = ">>> **alice**\nSource: <https://www.reddit.com/r/aww/comments/abc/t/>\nEmbedURL: https://i.redd.it/a.jpg\nhttps://i.redd.it/b.jpg\n\n**Comment By alice:**\nmine\n\n**Comment By bob:**\nso\\_cute\n\nCute \\*cat\\* - reddit.com/r/aww\n\nBody text";
    assert_eq!(r, Response::Content(expected.to_owned()));
}

#[test]
fn video_is_plain_text_and_thumbnail_gets_a_footer() {
    let p = post(PostSpecializedData::Video { video_url: url("https://v.redd.it/x.mp4") }, false, false, None);
    let r = embed(&p, "al", &opts(None, false, false));
    assert_eq!(
        r,
        Response::Content(">>> **al**\nSource: <https://www.reddit.com/r/aww/comments/abc/t/>\nEmbedURL: https://v.redd.it/x.mp4\n\nCute \\*cat\\* - reddit.com/r/aww\n\nBody text".to_owned())
    );
    let p = post(PostSpecializedData::VideoThumbnail { thumbnail_url: url("https://pbs.twimg.com/t.jpg") }, false, false, None);
    match embed(&p, "al", &opts(None, false, false)) {
        Response::Embed(e) => {
            assert_eq!(e.image.as_deref(), Some("https://pbs.twimg.com/t.jpg"));
            assert_eq!(e.footer.as_deref(), Some("This was originally a video. Click title to watch on website."));
        },
        Response::Content(_) => panic!("expected an embed"),
    }
}

#[test]
fn error_response_is_an_error_embed() {
    let r = error("boom".to_owned());
    assert_eq!(
        r,
        Response::Embed(Embed {
            title: Some(":x: Error".to_owned()),
            description: Some("boom".to_owned()),
            author: None,
            url: None,
            image: None,
            footer: None,
            fields: vec![],
        })
    );
}

#[test]
fn gated_gallery_has_no_image() {
    let p = post(
        PostSpecializedData::Gallery { img_urls: vec![url("https://i.redd.it/a.jpg"), url("https://i.redd.it/b.jpg")] },
        true,
        false,
        None,
    );
    match embed(&p, "alice", &opts(None, false, false)) {
        Response::Embed(e) => {
            assert_eq!(e.image, None);
            assert_eq!(e.description.as_deref(), Some("Warning NSFW: Click to view content"));
            assert!(e.fields.is_empty());
        },
        Response::Content(_) => panic!("expected the warning embed"),
    }
}
