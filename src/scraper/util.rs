//! Helpers that several scrapers share.
use crate::text::{chars_of, replace_all, replaced};
use crate::web_url::{opt_view, url_path, WebUrl};
use vstd::prelude::*;
use vstd::string::{StrSliceExecFns, StringExecFns};

verus! {

/// `s` with HTML's escapes for `&`, `>`, `<` and `"` undone, in that order.
pub open spec fn html_unescaped(s: Seq<char>) -> Seq<char> {
    replaced(
        replaced(replaced(replaced(s, "&amp;"@, "&"@), "&gt;"@, ">"@), "&lt;"@, "<"@),
        "&quot;"@,
        "\""@,
    )
}

/// `s` with `&amp;` turned back into `&`.
pub open spec fn url_unescaped(s: Seq<char>) -> Seq<char> {
    replaced(s, "&amp;"@, "&"@)
}

/// `s` without its trailing slashes.
pub open spec fn trim_slashes(s: Seq<char>) -> Seq<char>
    decreases s.len(),
{
    if s.len() > 0 && s.last() == '/' {
        trim_slashes(s.drop_last())
    } else {
        s
    }
}

/// What follows the last `/` of `s` (all of `s` where it has none).
pub open spec fn after_last_slash(s: Seq<char>) -> Seq<char>
    decreases s.len(),
{
    if s.len() == 0 || s.last() == '/' {
        Seq::empty()
    } else {
        after_last_slash(s.drop_last()).push(s.last())
    }
}

/// The last segment of the path of the URL `u`, trailing slashes ignored.
pub open spec fn path_last_segment(u: Seq<char>) -> Option<Seq<char>> {
    match url_path(u) {
        Some(p) => Some(after_last_slash(trim_slashes(p))),
        None => None,
    }
}

/// Whether `s` ends with `suffix`.
pub open spec fn ends_with(s: Seq<char>, suffix: Seq<char>) -> bool {
    suffix.len() <= s.len() && s.skip(s.len() - suffix.len()) == suffix
}

/// Whether the path of the URL `u`, without trailing slashes, ends with `needle`.
pub open spec fn path_ends_with(u: Seq<char>, needle: Seq<char>) -> bool {
    match url_path(u) {
        Some(p) => ends_with(trim_slashes(p), needle),
        None => false,
    }
}

/// The file extensions of images.
pub open spec fn image_extensions() -> Seq<Seq<char>> {
    seq![
        ".jpg"@,
        ".png"@,
        ".gif"@,
        ".tif"@,
        ".bmp"@,
        ".dib"@,
        ".jpeg"@,
        ".jpe"@,
        ".jfif"@,
        ".tiff"@,
        ".heic"@,
    ]
}

/// Whether the path of the URL `u` ends with an image file extension.
pub open spec fn path_has_image_extension(u: Seq<char>) -> bool {
    exists|i: int| 0 <= i < image_extensions().len() && #[trigger] path_ends_with(u, image_extensions()[i])
}

/// Undoes HTML's escapes for `&`, `>`, `<` and `"`.
pub fn unescape_html(html: &str) -> (r: String)
    ensures
        r@ == html_unescaped(html@),
{
    let a = replace_all(html, "&amp;", "&");
    let b = replace_all(a.as_str(), "&gt;", ">");
    let c = replace_all(b.as_str(), "&lt;", "<");
    replace_all(c.as_str(), "&quot;", "\"")
}

/// Turns `&amp;` back into `&`.
pub fn unescape_url(url: &str) -> (r: String)
    ensures
        r@ == url_unescaped(url@),
{
    replace_all(url, "&amp;", "&")
}

/// Whether `s`, without trailing slashes, ends with `needle`.
pub fn trimmed_ends_with(s: &str, needle: &str) -> (r: bool)
    ensures
        r == ends_with(trim_slashes(s@), needle@),
{
    let cs = chars_of(s);
    let nc = chars_of(needle);
    let mut e: usize = cs.len();
    assert(cs@.take(e as int) =~= cs@);
    while e > 0 && cs[e - 1] == '/'
        invariant
            cs@ == s@,
            0 <= e <= cs.len(),
            trim_slashes(cs@.take(e as int)) == trim_slashes(s@),
        decreases e,
    {
        assert(cs@.take(e as int).drop_last() =~= cs@.take(e - 1));
        e -= 1;
    }
    let ghost t = cs@.take(e as int);
    assert(trim_slashes(t) == t);
    if nc.len() > e {
        return false;
    }
    let start = e - nc.len();
    let mut j: usize = 0;
    while j < nc.len()
        invariant
            nc@ == needle@,
            cs@ == s@,
            e <= cs.len(),
            start + nc.len() == e,
            t == cs@.take(e as int),
            trim_slashes(s@) == t,
            0 <= j <= nc.len(),
            forall|m: int| 0 <= m < j ==> cs@[start + m] == nc@[m],
        decreases nc.len() - j,
    {
        if cs[start + j] != nc[j] {
            assert(t.skip(t.len() - nc@.len())[j as int] == cs@[start + j]);
            assert(t.skip(t.len() - nc@.len()) != needle@);
            return false;
        }
        j += 1;
    }
    assert(t.skip(t.len() - nc@.len()) =~= needle@);
    true
}

/// The last segment of `s`, trailing slashes ignored.
pub fn last_segment(s: &str) -> (r: String)
    ensures
        r@ == after_last_slash(trim_slashes(s@)),
{
    let cs = chars_of(s);
    let mut e: usize = cs.len();
    assert(cs@.take(e as int) =~= cs@);
    while e > 0 && cs[e - 1] == '/'
        invariant
            cs@ == s@,
            0 <= e <= cs.len(),
            trim_slashes(cs@.take(e as int)) == trim_slashes(s@),
        decreases e,
    {
        assert(cs@.take(e as int).drop_last() =~= cs@.take(e - 1));
        e -= 1;
    }
    let ghost t = cs@.take(e as int);
    assert(trim_slashes(t) == t);
    let mut j: usize = e;
    assert(t.subrange(e as int, e as int) =~= Seq::<char>::empty());
    assert(after_last_slash(t) =~= after_last_slash(t) + Seq::<char>::empty());
    while j > 0 && cs[j - 1] != '/'
        invariant
            cs@ == s@,
            0 <= j <= e <= cs.len(),
            t == cs@.take(e as int),
            trim_slashes(s@) == t,
            after_last_slash(t) == after_last_slash(cs@.take(j as int)) + cs@.subrange(j as int, e as int),
        decreases j,
    {
        assert(cs@.take(j as int).drop_last() =~= cs@.take(j - 1));
        assert(cs@.subrange(j - 1, e as int) =~= seq![cs@[j - 1]] + cs@.subrange(j as int, e as int));
        assert(after_last_slash(cs@.take(j as int)) == after_last_slash(cs@.take(j - 1)).push(cs@[j - 1]));
        assert(after_last_slash(cs@.take(j - 1)).push(cs@[j - 1]) + cs@.subrange(j as int, e as int)
            =~= after_last_slash(cs@.take(j - 1)) + cs@.subrange(j - 1, e as int));
        j -= 1;
    }
    assert(after_last_slash(cs@.take(j as int)) =~= Seq::<char>::empty());
    assert(after_last_slash(t) =~= cs@.subrange(j as int, e as int));
    String::from_str(s.substring_char(j, e))
}

/// The last segment of the path of `u`, trailing slashes ignored.
pub fn url_last_segment(u: &WebUrl) -> (r: Option<String>)
    ensures
        opt_view(r) == path_last_segment(u@),
{
    match u.path() {
        Some(p) => Some(last_segment(p.as_str())),
        None => None,
    }
}

/// Whether the path of `haystack`, without trailing slashes, ends with `needle`.
pub fn url_path_ends_with(haystack: &WebUrl, needle: &str) -> (r: bool)
    ensures
        r == path_ends_with(haystack@, needle@),
{
    match haystack.path() {
        Some(p) => trimmed_ends_with(p.as_str(), needle),
        None => false,
    }
}

/// Whether the path of `haystack` ends with an image file extension.
pub fn url_path_ends_with_image_extension(haystack: &WebUrl) -> (r: bool)
    ensures
        r == path_has_image_extension(haystack@),
{
    let exts: [&str; 11] = [
        ".jpg",
        ".png",
        ".gif",
        ".tif",
        ".bmp",
        ".dib",
        ".jpeg",
        ".jpe",
        ".jfif",
        ".tiff",
        ".heic",
    ];
    let mut i: usize = 0;
    while i < 11
        invariant
            0 <= i <= 11,
            forall|m: int| 0 <= m < 11 ==> (#[trigger] exts@[m])@ == image_extensions()[m],
            forall|m: int| 0 <= m < i ==> !path_ends_with(haystack@, #[trigger] image_extensions()[m]),
        decreases 11 - i,
    {
        if url_path_ends_with(haystack, exts[i]) {
            return true;
        }
        i += 1;
    }
    false
}

} // verus!
