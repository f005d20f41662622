//! Rendering a post into a chat response: sensitivity gating, escaping, truncation and
//! the choice between a rich embed and plain text.
use crate::scraper::{media_view, urls_view, Comment, MediaView, Post, PostCommonData, PostSpecializedData};
use crate::text::{
    escape_markdown, escaped, into_owned, limit_descr_len, limit_len, limit_text, utf8_len, utf8_len_within,
    EMBED_CONTENT_MAX_LEN, EMBED_TITLE_MAX_LEN,
};
use crate::web_url::WebUrl;
use vstd::prelude::*;
use vstd::string::StringExecFns;

verus! {

/// Per-request rendering options.
#[derive(Clone, Copy, Debug, PartialEq, Eq)]
pub struct EmbedOptions<'comment> {
    /// A comment of the requesting user, shown beside the post.
    pub comment: Option<&'comment str>,
    /// Whether a post marked nsfw is shown in full.
    pub embed_nsfw: bool,
    /// Whether a post marked as a spoiler is shown in full.
    pub embed_spoiler: bool,
}

/// A named field of an embed.
#[derive(Clone, Debug, PartialEq, Eq)]
pub struct EmbedField {
    pub name: String,
    pub value: String,
    pub inline: bool,
}

/// A rich embed.
#[derive(Clone, Debug, PartialEq, Eq)]
pub struct Embed {
    pub title: Option<String>,
    pub description: Option<String>,
    pub author: Option<String>,
    pub url: Option<String>,
    pub image: Option<String>,
    pub footer: Option<String>,
    pub fields: Vec<EmbedField>,
}

/// A response: plain text, or one embed.
#[derive(Clone, Debug, PartialEq, Eq)]
pub enum Response {
    Content(String),
    Embed(Embed),
}

/// A field as name, value and whether it is inline.
pub type FieldView = (Seq<char>, Seq<char>, bool);

/// An embed as text.
pub struct EmbedView {
    pub title: Option<Seq<char>>,
    pub description: Option<Seq<char>>,
    pub author: Option<Seq<char>>,
    pub url: Option<Seq<char>>,
    pub image: Option<Seq<char>>,
    pub footer: Option<Seq<char>>,
    pub fields: Seq<FieldView>,
}

/// A response as text.
pub enum ResponseView {
    Content(Seq<char>),
    Embed(EmbedView),
}

/// The characters of an optional string.
pub open spec fn text_of(o: Option<String>) -> Option<Seq<char>> {
    match o {
        Some(s) => Some(s@),
        None => None,
    }
}

impl View for Embed {
    type V = EmbedView;

    open spec fn view(&self) -> EmbedView {
        EmbedView {
            title: text_of(self.title),
            description: text_of(self.description),
            author: text_of(self.author),
            url: text_of(self.url),
            image: text_of(self.image),
            footer: text_of(self.footer),
            fields: self.fields@.map_values(|f: EmbedField| (f.name@, f.value@, f.inline)),
        }
    }
}

impl View for Response {
    type V = ResponseView;

    open spec fn view(&self) -> ResponseView {
        match self {
            Response::Content(s) => ResponseView::Content(s@),
            Response::Embed(e) => ResponseView::Embed(e@),
        }
    }
}

/// The room, in bytes, that a title has beside ` - ` and the origin.
pub open spec fn title_room(origin: Seq<char>) -> int {
    if utf8_len(origin) + 3 <= EMBED_TITLE_MAX_LEN {
        EMBED_TITLE_MAX_LEN - 3 - utf8_len(origin)
    } else {
        0
    }
}

/// A post's title as shown: escaped, limited, then ` - ` and the origin.
pub open spec fn title_text(c: PostCommonData) -> Seq<char> {
    limit_text(escaped(c.title@), title_room(c.origin@)) + " - "@ + c.origin@
}

/// The field that carries the requesting user's comment, if any.
pub open spec fn author_comment_fields(viewer: Seq<char>, comment: Option<&str>) -> Seq<FieldView> {
    match comment {
        Some(c) => seq![("Comment by "@ + viewer, c@, false)],
        None => Seq::empty(),
    }
}

/// The field that carries the post's own comment, escaped, if any.
pub open spec fn post_comment_fields(comment: Option<Comment>) -> Seq<FieldView> {
    match comment {
        Some(c) => seq![("Comment by "@ + c.author@, escaped(c.text@), true)],
        None => Seq::empty(),
    }
}

/// The short embed shown in place of gated content.
pub open spec fn gated_embed(
    c: PostCommonData,
    viewer: Seq<char>,
    comment: Option<&str>,
    notice: Seq<char>,
    with_post_comment: bool,
) -> EmbedView {
    EmbedView {
        title: Some(title_text(c)),
        description: Some(notice),
        author: Some(viewer),
        url: Some(c.src@),
        image: None,
        footer: None,
        fields: author_comment_fields(viewer, comment) + if with_post_comment {
            post_comment_fields(c.comment)
        } else {
            Seq::empty()
        },
    }
}

/// The embed of a post's title, text and comments.
pub open spec fn base_embed_view(c: PostCommonData, viewer: Seq<char>, comment: Option<&str>) -> EmbedView {
    EmbedView {
        title: Some(title_text(c)),
        description: Some(limit_text(c.text@, EMBED_CONTENT_MAX_LEN as int)),
        author: Some(viewer),
        url: Some(c.src@),
        image: None,
        footer: None,
        fields: author_comment_fields(viewer, comment) + post_comment_fields(c.comment),
    }
}

/// `urls`, one per line.
pub open spec fn joined_lines(urls: Seq<Seq<char>>) -> Seq<char>
    decreases urls.len(),
{
    if urls.len() == 0 {
        Seq::empty()
    } else if urls.len() == 1 {
        urls[0]
    } else {
        joined_lines(urls.drop_last()) + "\n"@ + urls.last()
    }
}

/// A comment block of the plain-text rendering.
pub open spec fn comment_block(author: Seq<char>, text: Seq<char>) -> Seq<char> {
    "**Comment By "@ + author + ":**\n"@ + text + "\n\n"@
}

/// The plain-text rendering of a post whose media are `urls`.
pub open spec fn manual_text(
    c: PostCommonData,
    viewer: Seq<char>,
    comment: Option<&str>,
    urls: Seq<Seq<char>>,
) -> Seq<char> {
    ">>> **"@ + viewer + "**\nSource: <"@ + c.src@ + ">\nEmbedURL: "@ + joined_lines(urls) + "\n\n"@
        + match comment {
        Some(t) => comment_block(viewer, t@),
        None => Seq::empty(),
    } + match c.comment {
        Some(pc) => comment_block(pc.author@, escaped(pc.text@)),
        None => Seq::empty(),
    } + title_text(c) + "\n\n"@ + limit_text(c.text@, EMBED_CONTENT_MAX_LEN as int)
}

/// The notice shown in place of an nsfw post.
pub open spec fn nsfw_notice() -> Seq<char> {
    "Warning NSFW: Click to view content"@
}

/// The notice shown in place of a spoiler.
pub open spec fn spoiler_notice() -> Seq<char> {
    "Spoiler: Click to view content"@
}

/// The footer of an embed that stands in for a video.
pub open spec fn video_footer() -> Seq<char> {
    "This was originally a video. Click title to watch on website."@
}

/// The response for `post`, shown to `viewer` with options `opts`. A gated nsfw post
/// leaves out the post's own comment; a gated spoiler keeps it.
pub open spec fn rendered(post: Post, viewer: Seq<char>, opts: EmbedOptions) -> ResponseView {
    let c = post.common;
    if c.nsfw && !opts.embed_nsfw {
        ResponseView::Embed(gated_embed(c, viewer, opts.comment, nsfw_notice(), false))
    } else if c.spoiler && !opts.embed_spoiler {
        ResponseView::Embed(gated_embed(c, viewer, opts.comment, spoiler_notice(), true))
    } else {
        let base = base_embed_view(c, viewer, opts.comment);
        match media_view(post.specialized) {
            MediaView::TextOnly => ResponseView::Embed(base),
            MediaView::Image(u) => ResponseView::Embed(EmbedView { image: Some(u), ..base }),
            MediaView::Gallery(urls) => ResponseView::Content(manual_text(c, viewer, opts.comment, urls)),
            MediaView::Video(u) => ResponseView::Content(manual_text(c, viewer, opts.comment, seq![u])),
            MediaView::VideoThumbnail(u) => ResponseView::Embed(
                EmbedView { image: Some(u), footer: Some(video_footer()), ..base },
            ),
        }
    }
}

/// Formats a post's title: escaped, limited to the room the origin leaves, and followed
/// by ` - ` and the origin.
pub fn fmt_title(post: &PostCommonData) -> (r: String)
    ensures
        r@ == title_text(*post),
{
    let room: usize = match utf8_len_within(post.origin.as_str(), EMBED_TITLE_MAX_LEN - 3) {
        Some(n) => EMBED_TITLE_MAX_LEN - 3 - n,
        None => 0,
    };
    let title = escape_markdown(post.title.as_str());
    let title = into_owned(title);
    let mut r = into_owned(limit_len(title.as_str(), room));
    r.append(" - ");
    r.append(post.origin.as_str());
    r
}

fn concat3(a: &str, b: &str, c: &str) -> (r: String)
    ensures
        r@ == a@ + b@ + c@,
{
    let mut r = String::from_str(a);
    r.append(b);
    r.append(c);
    r
}

fn include_author_comment(e: &mut Embed, viewer: &str, comment: &str)
    ensures
        final(e)@ == (EmbedView {
            fields: old(e)@.fields.push(("Comment by "@ + viewer@, comment@, false)),
            ..old(e)@
        }),
{
    let f = EmbedField {
        name: concat3("Comment by ", viewer, ""),
        value: String::from_str(comment),
        inline: false,
    };
    proof {
        reveal_strlit("");
        assert(f.name@ =~= "Comment by "@ + viewer@);
    }
    e.fields.push(f);
    assert(final(e)@.fields =~= old(e)@.fields.push(("Comment by "@ + viewer@, comment@, false)));
}

fn include_comment(e: &mut Embed, comment: &Comment)
    ensures
        final(e)@ == (EmbedView {
            fields: old(e)@.fields.push(
                ("Comment by "@ + comment.author@, escaped(comment.text@), true),
            ),
            ..old(e)@
        }),
{
    let escaped_text = escape_markdown(comment.text.as_str());
    let f = EmbedField {
        name: concat3("Comment by ", comment.author.as_str(), ""),
        value: into_owned(escaped_text),
        inline: true,
    };
    proof {
        reveal_strlit("");
        assert(f.name@ =~= "Comment by "@ + comment.author@);
    }
    e.fields.push(f);
    assert(final(e)@.fields =~= old(e)@.fields.push(
        ("Comment by "@ + comment.author@, escaped(comment.text@), true),
    ));
}

fn titled_embed(post: &PostCommonData, viewer: &str, description: String) -> (r: Embed)
    ensures
        r@ == (EmbedView {
            title: Some(title_text(*post)),
            description: Some(description@),
            author: Some(viewer@),
            url: Some(post.src@),
            image: None,
            footer: None,
            fields: Seq::empty(),
        }),
{
    let r = Embed {
        title: Some(fmt_title(post)),
        description: Some(description),
        author: Some(String::from_str(viewer)),
        url: Some(String::from_str(post.src.as_str())),
        image: None,
        footer: None,
        fields: Vec::new(),
    };
    assert(r@.fields =~= Seq::<FieldView>::empty());
    r
}

fn base_embed(viewer: &str, comment: Option<&str>, post: &PostCommonData) -> (r: Embed)
    ensures
        r@ == base_embed_view(*post, viewer@, comment),
{
    let descr = limit_descr_len(post.text.as_str());
    let mut e = titled_embed(post, viewer, into_owned(descr));
    if let Some(c) = comment {
        include_author_comment(&mut e, viewer, c);
    }
    if let Some(c) = &post.comment {
        include_comment(&mut e, c);
    }
    assert(e@.fields =~= author_comment_fields(viewer@, comment) + post_comment_fields(post.comment));
    e
}

fn gated(post: &PostCommonData, viewer: &str, comment: Option<&str>, notice: &str, with_post_comment: bool) -> (r: Embed)
    ensures
        r@ == gated_embed(*post, viewer@, comment, notice@, with_post_comment),
{
    let mut e = titled_embed(post, viewer, String::from_str(notice));
    if let Some(c) = comment {
        include_author_comment(&mut e, viewer, c);
    }
    if with_post_comment {
        if let Some(c) = &post.comment {
            include_comment(&mut e, c);
        }
    }
    assert(e@.fields =~= author_comment_fields(viewer@, comment) + if with_post_comment {
        post_comment_fields(post.comment)
    } else {
        Seq::empty()
    });
    e
}

fn join_urls(urls: &Vec<WebUrl>) -> (r: String)
    ensures
        r@ == joined_lines(urls_view(urls@)),
{
    let mut r = String::new();
    let mut i: usize = 0;
    while i < urls.len()
        invariant
            0 <= i <= urls.len(),
            r@ == joined_lines(urls_view(urls@.take(i as int))),
        decreases urls.len() - i,
    {
        let ghost before = urls_view(urls@.take(i as int));
        assert(urls_view(urls@.take(i + 1)) =~= before.push(urls@[i as int]@));
        assert(urls_view(urls@.take(i + 1)).drop_last() =~= before);
        if i > 0 {
            r.append("\n");
        } else {
            assert(before =~= Seq::<Seq<char>>::empty());
            assert(r@ =~= Seq::<char>::empty());
        }
        r.append(urls[i].as_str());
        i += 1;
    }
    assert(urls@.take(i as int) =~= urls@);
    r
}

fn comment_block_text(author: &str, text: &str) -> (r: String)
    ensures
        r@ == comment_block(author@, text@),
{
    let mut r = String::from_str("**Comment By ");
    r.append(author);
    r.append(":**\n");
    r.append(text);
    r.append("\n\n");
    r
}

fn manual_header(viewer: &str, src: &str, urls: &str) -> (r: String)
    ensures
        r@ == ">>> **"@ + viewer@ + "**\nSource: <"@ + src@ + ">\nEmbedURL: "@ + urls@ + "\n\n"@,
{
    let mut r = String::from_str(">>> **");
    r.append(viewer);
    r.append("**\nSource: <");
    r.append(src);
    r.append(">\nEmbedURL: ");
    r.append(urls);
    r.append("\n\n");
    r
}

#[verifier::rlimit(30)]
fn manual_embed(viewer: &str, discord_comment: Option<&str>, post: &PostCommonData, embed_urls: &Vec<WebUrl>) -> (r: String)
    ensures
        r@ == manual_text(*post, viewer@, discord_comment, urls_view(embed_urls@)),
{
    let urls = join_urls(embed_urls);
    let head = manual_header(viewer, post.src.as_str(), urls.as_str());
    let dc = match discord_comment {
        Some(c) => comment_block_text(viewer, c),
        None => String::new(),
    };
    let pc = match &post.comment {
        Some(c) => {
            let t = into_owned(escape_markdown(c.text.as_str()));
            comment_block_text(c.author.as_str(), t.as_str())
        },
        None => String::new(),
    };
    let title = fmt_title(post);
    let descr = into_owned(limit_descr_len(post.text.as_str()));
    let mut r = head;
    r.append(dc.as_str());
    r.append(pc.as_str());
    r.append(title.as_str());
    r.append("\n\n");
    r.append(descr.as_str());
    assert(r@ =~= head@ + dc@ + pc@ + title@ + "\n\n"@ + descr@);
    r
}

/// Renders `post` for `user` (a display name) with the options `opts`.
pub fn embed(post: &Post, user: &str, opts: &EmbedOptions) -> (r: Response)
    ensures
        r@ == rendered(*post, user@, *opts),
{
    if post.common.nsfw && !opts.embed_nsfw {
        Response::Embed(gated(&post.common, user, opts.comment, "Warning NSFW: Click to view content", false))
    } else if post.common.spoiler && !opts.embed_spoiler {
        Response::Embed(gated(&post.common, user, opts.comment, "Spoiler: Click to view content", true))
    } else {
        match &post.specialized {
            PostSpecializedData::TextOnly => Response::Embed(base_embed(user, opts.comment, &post.common)),
            PostSpecializedData::Image { img_url } => {
                let mut e = base_embed(user, opts.comment, &post.common);
                e.image = Some(String::from_str(img_url.as_str()));
                Response::Embed(e)
            },
            PostSpecializedData::Gallery { img_urls } => Response::Content(
                manual_embed(user, opts.comment, &post.common, img_urls),
            ),
            PostSpecializedData::Video { video_url } => {
                let urls = vec![video_url.duplicate()];
                assert(urls_view(urls@) =~= seq![video_url@]);
                Response::Content(manual_embed(user, opts.comment, &post.common, &urls))
            },
            PostSpecializedData::VideoThumbnail { thumbnail_url } => {
                let mut e = base_embed(user, opts.comment, &post.common);
                e.image = Some(String::from_str(thumbnail_url.as_str()));
                e.footer = Some(String::from_str("This was originally a video. Click title to watch on website."));
                Response::Embed(e)
            },
        }
    }
}

/// The response that reports a failure: an embed titled ":x: Error" that says `msg`.
pub fn error(msg: String) -> (r: Response)
    ensures
        r@ == ResponseView::Embed(EmbedView {
            title: Some(":x: Error"@),
            description: Some(msg@),
            author: None,
            url: None,
            image: None,
            footer: None,
            fields: Seq::empty(),
        }),
{
    let r = Response::Embed(Embed {
        title: Some(String::from_str(":x: Error")),
        description: Some(msg),
        author: None,
        url: None,
        image: None,
        footer: None,
        fields: Vec::new(),
    });
    assert(match r@ { ResponseView::Embed(e) => e.fields =~= Seq::<FieldView>::empty(), _ => false });
    r
}

/// A post marked nsfw, shown where nsfw content is not to be embedded, becomes the short
/// warning embed: its description is the warning and nothing else, it has no image and
/// no footer, and the only field it may carry is the requesting user's comment.
pub proof fn lemma_nsfw_is_gated(post: Post, viewer: Seq<char>, opts: EmbedOptions)
    requires
        post.common.nsfw,
        !opts.embed_nsfw,
    ensures
        rendered(post, viewer, opts) is Embed,
        rendered(post, viewer, opts)->Embed_0.description == Some(nsfw_notice()),
        rendered(post, viewer, opts)->Embed_0.image is None,
        rendered(post, viewer, opts)->Embed_0.footer is None,
        rendered(post, viewer, opts)->Embed_0.fields =~= author_comment_fields(viewer, opts.comment),
{
}

/// A gallery is never rendered with an embed image; where no gate applies it is
/// rendered as plain text.
pub proof fn lemma_gallery_is_plain_text(post: Post, viewer: Seq<char>, opts: EmbedOptions)
    requires
        post.wf(),
        post.specialized is Gallery,
    ensures
        rendered(post, viewer, opts) is Embed ==> rendered(post, viewer, opts)->Embed_0.image is None,
        !(post.common.nsfw && !opts.embed_nsfw) && !(post.common.spoiler && !opts.embed_spoiler)
            ==> rendered(post, viewer, opts) is Content,
{
}

} // verus!
