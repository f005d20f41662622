//! Text helpers for rendering: markdown escaping and length limiting.
use std::borrow::Cow;
use vstd::prelude::*;
use vstd::string::StrSliceExecFns;
use vstd::string::StringExecFns;
use vstd::utf8::encode_scalar;
use vstd::utf8::encode_utf8;
use vstd::utf8::encode_utf8_first_scalar;
use vstd::utf8::encode_utf8_valid_utf8;
use vstd::utf8::is_char_boundary;
use vstd::utf8::pop_first_scalar;

verus! {

/// The characters that markdown treats specially and that get a backslash in front.
pub open spec fn is_markdown_control(c: char) -> bool {
    c == '`' || c == '*' || c == '_' || c == '{' || c == '}' || c == '[' || c == ']' || c == '('
        || c == ')' || c == '#' || c == '+' || c == '-' || c == '.' || c == '!'
}

/// Whether any character of `s` is a markdown control character.
pub open spec fn has_markdown_control(s: Seq<char>) -> bool {
    exists|i: int| 0 <= i < s.len() && is_markdown_control(#[trigger] s[i])
}

/// The escaped form of a single character.
pub open spec fn escaped_char(c: char) -> Seq<char> {
    if is_markdown_control(c) {
        seq!['\\', c]
    } else {
        seq![c]
    }
}

/// `s` with a backslash inserted before every markdown control character.
pub open spec fn escaped(s: Seq<char>) -> Seq<char>
    decreases s.len(),
{
    if s.len() == 0 {
        Seq::empty()
    } else {
        escaped(s.drop_last()) + escaped_char(s.last())
    }
}

/// `t` with every backslash removed that stands immediately before a markdown
/// control character; all other characters are kept in order.
pub open spec fn unescaped(t: Seq<char>) -> Seq<char>
    decreases t.len(),
{
    if t.len() == 0 {
        Seq::empty()
    } else if t.len() >= 2 && t[t.len() - 2] == '\\' && is_markdown_control(t.last()) {
        unescaped(t.take(t.len() - 2)) + seq![t.last()]
    } else {
        unescaped(t.drop_last()) + seq![t.last()]
    }
}

/// Number of bytes of the UTF-8 encoding of `s`.
pub open spec fn utf8_len(s: Seq<char>) -> nat {
    encode_utf8(s).len()
}

/// `k` is the longest character prefix of `s` whose encoding takes at most `n` bytes.
pub open spec fn is_prefix_within(s: Seq<char>, n: int, k: int) -> bool {
    &&& 0 <= k <= s.len()
    &&& utf8_len(s.take(k)) <= n
    &&& (k == s.len() || utf8_len(s.take(k + 1)) > n)
}

/// The marker appended to shortened text, after a space.
pub open spec fn shortened_marker() -> Seq<char> {
    seq!['[', '.', '.', '.', ']']
}

/// Where the text is cut when it is longer than `limit` bytes: room is left for the
/// space and the marker.
pub open spec fn cut_bytes(limit: int) -> int {
    if limit >= 6 {
        limit - 6
    } else {
        0
    }
}

/// The length of the longest character prefix of `s` that fits in `n` bytes.
pub open spec fn prefix_len(s: Seq<char>, n: int) -> int {
    choose|k: int| is_prefix_within(s, n, k)
}

/// What `limit_len` yields: `s` itself when it fits in `limit` bytes, else its longest
/// prefix that fits in `cut_bytes(limit)` bytes followed by `" [...]"`.
pub open spec fn limit_text(s: Seq<char>, limit: int) -> Seq<char> {
    if utf8_len(s) <= limit {
        s
    } else {
        s.take(prefix_len(s, cut_bytes(limit))) + seq![' '] + shortened_marker()
    }
}

pub proof fn lemma_encode_concat(a: Seq<char>, b: Seq<char>)
    ensures
        encode_utf8(a + b) == encode_utf8(a) + encode_utf8(b),
    decreases a.len(),
{
    if a.len() == 0 {
        assert(a + b =~= b);
        assert(encode_utf8(a) =~= Seq::<u8>::empty());
        assert(encode_utf8(a) + encode_utf8(b) =~= encode_utf8(b));
    } else {
        assert((a + b).drop_first() =~= a.drop_first() + b);
        lemma_encode_concat(a.drop_first(), b);
        assert((a + b)[0] == a[0]);
    }
}

proof fn lemma_encode_push(s: Seq<char>, i: int)
    requires
        0 <= i < s.len(),
    ensures
        utf8_len(s.take(i + 1)) == utf8_len(s.take(i)) + encode_scalar(s[i] as u32).len(),
{
    assert(s.take(i + 1) =~= s.take(i) + seq![s[i]]);
    lemma_encode_concat(s.take(i), seq![s[i]]);
    let one = seq![s[i]];
    assert(one.drop_first() =~= Seq::<char>::empty());
    assert(encode_utf8(Seq::<char>::empty()) =~= Seq::<u8>::empty());
    assert(encode_utf8(one) =~= encode_scalar(s[i] as u32));
}

proof fn lemma_utf8_len_monotone(s: Seq<char>, a: int, b: int)
    requires
        0 <= a <= b <= s.len(),
    ensures
        utf8_len(s.take(a)) <= utf8_len(s.take(b)),
{
    assert(s.take(b) =~= s.take(a) + s.subrange(a, b));
    lemma_encode_concat(s.take(a), s.subrange(a, b));
}

/// The longest prefix that fits is unique, so `prefix_len` names it.
proof fn lemma_prefix_len(s: Seq<char>, n: int, k: int)
    requires
        is_prefix_within(s, n, k),
    ensures
        prefix_len(s, n) == k,
{
    let c = prefix_len(s, n);
    assert(is_prefix_within(s, n, c));
    if c < k {
        lemma_utf8_len_monotone(s, c + 1, k);
    } else if k < c {
        lemma_utf8_len_monotone(s, k + 1, c);
    }
}

proof fn lemma_escaped_take(s: Seq<char>, i: int)
    requires
        0 <= i < s.len(),
    ensures
        escaped(s.take(i + 1)) == escaped(s.take(i)) + escaped_char(s[i]),
{
    assert(s.take(i + 1).drop_last() =~= s.take(i));
}

proof fn lemma_escaped_identity(s: Seq<char>)
    requires
        !has_markdown_control(s),
    ensures
        escaped(s) == s,
    decreases s.len(),
{
    if s.len() > 0 {
        let p = s.drop_last();
        assert(!has_markdown_control(p)) by {
            assert forall|i: int| 0 <= i < p.len() implies !is_markdown_control(#[trigger] p[i]) by {
                assert(p[i] == s[i]);
            }
        }
        lemma_escaped_identity(p);
        assert(!is_markdown_control(s[s.len() - 1]));
        assert(s =~= p + seq![s.last()]);
    }
}

/// Removing each backslash that stands immediately before a markdown control character
/// from the escaped text gives back the original text, for every text.
pub proof fn lemma_unescape_escaped(s: Seq<char>)
    ensures
        unescaped(escaped(s)) == s,
    decreases s.len(),
{
    if s.len() > 0 {
        let p = s.drop_last();
        let c = s.last();
        let e = escaped(p);
        lemma_unescape_escaped(p);
        let t = escaped(s);
        assert(t == e + escaped_char(c));
        if is_markdown_control(c) {
            assert(t.take(t.len() - 2) =~= e);
        } else {
            assert(t.drop_last() =~= e);
        }
        assert(s =~= p + seq![c]);
    }
}

/// Text that holds no markdown control character comes out of the escaper unchanged.
pub proof fn lemma_escape_without_controls(s: Seq<char>)
    requires
        !has_markdown_control(s),
    ensures
        escaped(s) == s,
{
    lemma_escaped_identity(s);
}

proof fn lemma_prefix_on_boundary(s: Seq<char>, k: int)
    requires
        0 <= k <= s.len(),
    ensures
        is_char_boundary(encode_utf8(s), utf8_len(s.take(k)) as int),
        encode_utf8(s).take(utf8_len(s.take(k)) as int) == encode_utf8(s.take(k)),
    decreases k,
{
    encode_utf8_valid_utf8(s);
    let bytes = encode_utf8(s);
    if k == 0 {
        assert(s.take(0) =~= Seq::<char>::empty());
        assert(encode_utf8(s.take(0)) =~= Seq::<u8>::empty());
        assert(bytes.take(0) =~= Seq::<u8>::empty());
    } else {
        let rest = s.drop_first();
        encode_utf8_first_scalar(s);
        assert(pop_first_scalar(bytes) =~= encode_utf8(rest));
        lemma_prefix_on_boundary(rest, k - 1);
        let w = encode_scalar(s[0] as u32);
        assert(s.take(k).drop_first() =~= rest.take(k - 1));
        assert(s.take(k)[0] == s[0]);
        assert(encode_utf8(s.take(k)) == w + encode_utf8(rest.take(k - 1)));
        lemma_encode_concat(rest.take(k - 1), rest.skip(k - 1));
        assert(rest =~= rest.take(k - 1) + rest.skip(k - 1));
        assert(bytes == w + encode_utf8(rest));
        assert(bytes.take(utf8_len(s.take(k)) as int) =~= w + encode_utf8(rest).take(
            utf8_len(rest.take(k - 1)) as int,
        ));
    }
}

proof fn lemma_prefix_exists(s: Seq<char>, n: int)
    requires
        n >= 0,
    ensures
        is_prefix_within(s, n, prefix_len(s, n)),
    decreases s.len(),
{
    if s.len() == 0 {
        assert(s.take(0) =~= s);
        assert(encode_utf8(s) =~= Seq::<u8>::empty());
        assert(is_prefix_within(s, n, 0));
    } else {
        let p = s.drop_last();
        lemma_prefix_exists(p, n);
        let k = prefix_len(p, n);
        assert(p.take(k) =~= s.take(k));
        if k < p.len() {
            assert(p.take(k + 1) =~= s.take(k + 1));
            assert(is_prefix_within(s, n, k));
        } else {
            assert(p =~= s.take(k));
            if utf8_len(s) <= n {
                assert(s.take(s.len() as int) =~= s);
                assert(is_prefix_within(s, n, s.len() as int));
            } else {
                assert(s.take(k + 1) =~= s);
                assert(is_prefix_within(s, n, k));
            }
        }
    }
}

/// Limiting never splits a character: what is kept of a shortened text is the input's
/// UTF-8 encoding up to a character boundary, followed by `" [...]"`.
pub proof fn lemma_limit_keeps_char_boundary(s: Seq<char>, limit: int, r: Seq<char>)
    requires
        r == limit_text(s, limit),
    ensures
        utf8_len(s) <= limit ==> r == s,
        utf8_len(s) > limit ==> exists|b: int|
            #![trigger is_char_boundary(encode_utf8(s), b)]
            is_char_boundary(encode_utf8(s), b) && encode_utf8(r) == encode_utf8(s).take(b)
                + encode_utf8(seq![' '] + shortened_marker()),
{
    if utf8_len(s) > limit {
        let k = prefix_len(s, cut_bytes(limit));
        lemma_prefix_exists(s, cut_bytes(limit));
        lemma_prefix_on_boundary(s, k);
        lemma_encode_concat(s.take(k), seq![' '] + shortened_marker());
        assert(r =~= s.take(k) + (seq![' '] + shortened_marker()));
        let b = utf8_len(s.take(k)) as int;
        assert(is_char_boundary(encode_utf8(s), b));
    }
}

/// The characters of `s`, in order.
pub fn chars_of(s: &str) -> (r: Vec<char>)
    ensures
        r@ == s@,
{
    let mut r: Vec<char> = Vec::new();
    for c in it: s.chars()
        invariant
            r@ == it.seq().take(it.index() as int),
    {
        r.push(c);
    }
    r
}

/// Whether `a` and `b` hold the same characters.
pub fn str_eq(a: &str, b: &str) -> (r: bool)
    ensures
        r == (a@ == b@),
{
    let x = chars_of(a);
    let y = chars_of(b);
    if x.len() != y.len() {
        return false;
    }
    let mut i: usize = 0;
    while i < x.len()
        invariant
            x@ == a@,
            y@ == b@,
            x.len() == y.len(),
            0 <= i <= x.len(),
            forall|j: int| 0 <= j < i ==> x@[j] == y@[j],
        decreases x.len() - i,
    {
        if x[i] != y[i] {
            return false;
        }
        i += 1;
    }
    assert(a@ =~= b@);
    true
}

/// `s` with each non-overlapping occurrence of `pat`, found from the left, replaced
/// by `rep`.
pub open spec fn replaced(s: Seq<char>, pat: Seq<char>, rep: Seq<char>) -> Seq<char>
    decreases s.len(),
{
    if s.len() == 0 || pat.len() == 0 {
        s
    } else if pat.len() <= s.len() && s.take(pat.len() as int) == pat {
        rep + replaced(s.skip(pat.len() as int), pat, rep)
    } else {
        seq![s[0]] + replaced(s.skip(1), pat, rep)
    }
}

/// Whether `pat` occurs in `cs` at position `i`.
fn occurs_at(cs: &Vec<char>, pat: &Vec<char>, i: usize) -> (r: bool)
    requires
        i <= cs.len(),
    ensures
        r == (pat.len() <= cs.len() - i && cs@.skip(i as int).take(pat.len() as int) == pat@),
{
    if pat.len() > cs.len() - i {
        return false;
    }
    let mut j: usize = 0;
    while j < pat.len()
        invariant
            pat.len() <= cs.len() - i,
            0 <= j <= pat.len(),
            forall|m: int| 0 <= m < j ==> cs@[i + m] == pat@[m],
        decreases pat.len() - j,
    {
        if cs[i + j] != pat[j] {
            assert(cs@.skip(i as int).take(pat.len() as int)[j as int] != pat@[j as int]);
            return false;
        }
        j += 1;
    }
    assert(cs@.skip(i as int).take(pat.len() as int) =~= pat@);
    true
}

/// Whether `pat` occurs somewhere in `s`.
pub open spec fn contains(s: Seq<char>, pat: Seq<char>) -> bool {
    exists|i: int| 0 <= i <= s.len() - pat.len() && #[trigger] s.subrange(i, i + pat.len()) == pat
}

/// Whether `pat` occurs somewhere in `s`.
pub fn str_contains(s: &str, pat: &str) -> (r: bool)
    ensures
        r == contains(s@, pat@),
{
    let cs = chars_of(s);
    let pc = chars_of(pat);
    let mut i: usize = 0;
    while i <= cs.len()
        invariant
            cs@ == s@,
            pc@ == pat@,
            0 <= i <= cs.len() + 1,
            forall|j: int| 0 <= j < i && j <= s@.len() - pat@.len() ==> #[trigger] s@.subrange(j, j + pat@.len()) != pat@,
        decreases cs.len() + 1 - i,
    {
        if occurs_at(&cs, &pc, i) {
            assert(s@.subrange(i as int, i + pat@.len()) =~= cs@.skip(i as int).take(pat@.len() as int));
            return true;
        }
        proof {
            if i + pat@.len() <= s@.len() {
                assert(s@.subrange(i as int, i + pat@.len()) =~= cs@.skip(i as int).take(pat@.len() as int));
            }
        }
        if i == cs.len() {
            return false;
        }
        i += 1;
    }
    false
}

/// Whether `s` starts with `prefix`.
pub open spec fn starts_with(s: Seq<char>, prefix: Seq<char>) -> bool {
    prefix.len() <= s.len() && s.take(prefix.len() as int) == prefix
}

/// Whether `s` starts with `prefix`.
pub fn str_starts_with(s: &str, prefix: &str) -> (r: bool)
    ensures
        r == starts_with(s@, prefix@),
{
    let cs = chars_of(s);
    let pc = chars_of(prefix);
    assert(cs@.skip(0) =~= cs@);
    occurs_at(&cs, &pc, 0)
}

/// Whether `c` is white space, as Unicode's White_Space property says.
pub open spec fn is_white_space(c: char) -> bool {
    let u = c as u32;
    (0x9 <= u <= 0xD) || u == 0x20 || u == 0x85 || u == 0xA0 || u == 0x1680 || (0x2000 <= u
        <= 0x200A) || u == 0x2028 || u == 0x2029 || u == 0x202F || u == 0x205F || u == 0x3000
}

/// `s` without its leading white space.
pub open spec fn trim_start(s: Seq<char>) -> Seq<char>
    decreases s.len(),
{
    if s.len() > 0 && is_white_space(s[0]) {
        trim_start(s.skip(1))
    } else {
        s
    }
}

fn is_white_space_char(c: char) -> (r: bool)
    ensures
        r == is_white_space(c),
{
    let u = c as u32;
    (0x9 <= u && u <= 0xD) || u == 0x20 || u == 0x85 || u == 0xA0 || u == 0x1680 || (0x2000 <= u
        && u <= 0x200A) || u == 0x2028 || u == 0x2029 || u == 0x202F || u == 0x205F || u == 0x3000
}

/// `s` without its leading white space.
pub fn str_trim_start(s: &str) -> (r: String)
    ensures
        r@ == trim_start(s@),
{
    let cs = chars_of(s);
    let n = cs.len();
    let mut i: usize = 0;
    assert(s@.skip(0) =~= s@);
    while i < n && is_white_space_char(cs[i])
        invariant
            cs@ == s@,
            n == s@.len(),
            0 <= i <= n,
            trim_start(s@.skip(i as int)) == trim_start(s@),
        decreases n - i,
    {
        assert(s@.skip(i as int).skip(1) =~= s@.skip(i + 1));
        i += 1;
    }
    assert(trim_start(s@.skip(i as int)) == s@.skip(i as int));
    assert(s@.subrange(i as int, n as int) =~= s@.skip(i as int));
    String::from_str(s.substring_char(i, n))
}

/// Replaces each non-overlapping occurrence of `pat` in `s`, from the left, by `rep`.
pub fn replace_all(s: &str, pat: &str, rep: &str) -> (r: String)
    ensures
        r@ == replaced(s@, pat@, rep@),
{
    let cs = chars_of(s);
    let pc = chars_of(pat);
    let mut out = String::new();
    if pc.len() == 0 {
        out.append(s);
        return out;
    }
    let mut i: usize = 0;
    assert(s@.skip(0) =~= s@);
    assert(out@ + s@ =~= s@);
    while i < cs.len()
        invariant
            cs@ == s@,
            pc@ == pat@,
            pc.len() > 0,
            0 <= i <= cs.len(),
            out@ + replaced(s@.skip(i as int), pat@, rep@) == replaced(s@, pat@, rep@),
        decreases cs.len() - i,
    {
        let ghost rest = s@.skip(i as int);
        if occurs_at(&cs, &pc, i) {
            assert(rest.skip(pc.len() as int) =~= s@.skip(i + pc.len()));
            out.append(rep);
            i = i + pc.len();
        } else {
            assert(rest.skip(1) =~= s@.skip(i + 1));
            push_char(&mut out, cs[i]);
            i = i + 1;
        }
        assert(out@ + replaced(s@.skip(i as int), pat@, rep@) == replaced(s@, pat@, rep@));
    }
    assert(s@.skip(i as int) =~= Seq::<char>::empty());
    assert(out@ + Seq::<char>::empty() =~= out@);
    out
}

/// `s` cut at every `\n`: one more piece than `s` has line breaks.
pub open spec fn pieces(s: Seq<char>) -> Seq<Seq<char>>
    decreases s.len(),
{
    if s.len() == 0 {
        seq![Seq::empty()]
    } else {
        let p = pieces(s.drop_last());
        if s.last() == '\n' {
            p.push(Seq::empty())
        } else {
            p.update(p.len() - 1, p.last().push(s.last()))
        }
    }
}

/// A line without the `\r` of a `\r\n` ending.
pub open spec fn strip_cr(l: Seq<char>) -> Seq<char> {
    if l.len() > 0 && l.last() == '\r' {
        l.drop_last()
    } else {
        l
    }
}

/// The lines of `s`: the pieces between line breaks, each without a `\r` before its
/// `\n`; a last piece that is empty (after a final line break, or in empty text) is no
/// line.
pub open spec fn lines_of(s: Seq<char>) -> Seq<Seq<char>> {
    let p = pieces(s);
    let body = p.drop_last().map_values(|l: Seq<char>| strip_cr(l));
    if p.last().len() == 0 {
        body
    } else {
        body.push(p.last())
    }
}

/// The first `n` characters of `cs` as a string.
fn string_of(cs: &Vec<char>, n: usize) -> (r: String)
    requires
        n <= cs.len(),
    ensures
        r@ == cs@.take(n as int),
{
    let mut r = String::new();
    let mut i: usize = 0;
    while i < n
        invariant
            n <= cs.len(),
            0 <= i <= n,
            r@ == cs@.take(i as int),
        decreases n - i,
    {
        push_char(&mut r, cs[i]);
        assert(cs@.take(i + 1) =~= cs@.take(i as int).push(cs@[i as int]));
        i += 1;
    }
    r
}

/// Splits `s` into its lines, as `lines_of` says.
pub fn split_lines(s: &str) -> (r: Vec<String>)
    ensures
        r@.map_values(|l: String| l@) == lines_of(s@),
{
    let cs = chars_of(s);
    let mut done: Vec<String> = Vec::new();
    let mut cur: Vec<char> = Vec::new();
    let mut i: usize = 0;
    assert(s@.take(0) =~= Seq::<char>::empty());
    assert(cur@ =~= Seq::<char>::empty());
    assert(done@.map_values(|l: String| l@) =~= Seq::<Seq<char>>::empty());
    while i < cs.len()
        invariant
            cs@ == s@,
            0 <= i <= cs.len(),
            pieces(s@.take(i as int)).len() >= 1,
            done@.map_values(|l: String| l@) == pieces(s@.take(i as int)).drop_last().map_values(
                |l: Seq<char>| strip_cr(l),
            ),
            cur@ == pieces(s@.take(i as int)).last(),
        decreases cs.len() - i,
    {
        let ghost p = pieces(s@.take(i as int));
        assert(s@.take(i + 1).drop_last() =~= s@.take(i as int));
        assert(s@.take(i + 1).last() == cs@[i as int]);
        let c = cs[i];
        if c == '\n' {
            let n = cur.len();
            let line = if n > 0 && cur[n - 1] == '\r' {
                string_of(&cur, n - 1)
            } else {
                string_of(&cur, n)
            };
            assert(line@ == strip_cr(cur@)) by {
                assert(cur@.take(n as int) =~= cur@);
                assert(cur@.take(n - 1) =~= cur@.drop_last());
            }
            let ghost before = done@;
            done.push(line);
            assert(done@.map_values(|l: String| l@) =~= before.map_values(|l: String| l@).push(line@));
            assert(p.push(Seq::<char>::empty()).drop_last() =~= p);
            assert(p.drop_last().map_values(|l: Seq<char>| strip_cr(l)).push(strip_cr(p.last()))
                =~= p.map_values(|l: Seq<char>| strip_cr(l)));
            cur = Vec::new();
            assert(cur@ =~= Seq::<char>::empty());
        } else {
            cur.push(c);
            let ghost q = p.update(p.len() - 1, p.last().push(c));
            assert(q.drop_last() =~= p.drop_last());
        }
        i += 1;
    }
    assert(s@.take(i as int) =~= s@);
    if cur.len() > 0 {
        let n = cur.len();
        let last = string_of(&cur, n);
        assert(cur@.take(n as int) =~= cur@);
        let ghost before = done@;
        done.push(last);
        assert(done@.map_values(|l: String| l@) =~= before.map_values(|l: String| l@).push(last@));
    }
    done
}

/// The decimal digit of `d`, for `d` below ten.
pub open spec fn digit(d: nat) -> char {
    if d == 0 { '0' } else if d == 1 { '1' } else if d == 2 { '2' } else if d == 3 { '3' } else if d
        == 4 { '4' } else if d == 5 { '5' } else if d == 6 { '6' } else if d == 7 { '7' } else if d
        == 8 { '8' } else { '9' }
}

/// `n` in decimal, without leading zeros.
pub open spec fn decimal(n: nat) -> Seq<char>
    decreases n,
{
    if n < 10 {
        seq![digit(n)]
    } else {
        decimal(n / 10).push(digit(n % 10))
    }
}

fn digit_char(d: usize) -> (c: char)
    requires
        d < 10,
    ensures
        c == digit(d as nat),
{
    if d == 0 { '0' } else if d == 1 { '1' } else if d == 2 { '2' } else if d == 3 { '3' } else if d
        == 4 { '4' } else if d == 5 { '5' } else if d == 6 { '6' } else if d == 7 { '7' } else if d
        == 8 { '8' } else { '9' }
}

/// Appends `n` in decimal to `s`.
pub fn push_decimal(s: &mut String, n: usize)
    ensures
        final(s)@ == old(s)@ + decimal(n as nat),
    decreases n,
{
    if n >= 10 {
        push_decimal(s, n / 10);
    }
    push_char(s, digit_char(n % 10));
    assert(n < 10 ==> old(s)@.push(digit(n as nat)) =~= old(s)@ + decimal(n as nat));
}

/// Relies on String::push: the character is appended at the end.
#[verifier::external_body]
pub(crate) fn push_char(s: &mut String, c: char)
    ensures
        final(s)@ == old(s)@.push(c),
{
    s.push(c)
}

fn is_markdown_control_char(c: char) -> (r: bool)
    ensures
        r == is_markdown_control(c),
{
    c == '`' || c == '*' || c == '_' || c == '{' || c == '}' || c == '[' || c == ']' || c == '('
        || c == ')' || c == '#' || c == '+' || c == '-' || c == '.' || c == '!'
}

/// Number of bytes that the UTF-8 encoding of `c` takes.
fn char_width(c: char) -> (w: usize)
    ensures
        w == encode_scalar(c as u32).len(),
        1 <= w <= 4,
{
    let u = c as u32;
    if u < 0x80 {
        1
    } else if u < 0x800 {
        2
    } else if u < 0x10000 {
        3
    } else {
        4
    }
}

/// Escapes markdown in `title`: a backslash goes before every control character.
/// Text without control characters is handed back borrowed, without allocating.
pub fn escape_markdown(title: &str) -> (r: Cow<'_, str>)
    ensures
        r@ == escaped(title@),
        (r is Borrowed) == !has_markdown_control(title@),
{
    let cs = chars_of(title);
    let mut i: usize = 0;
    let mut found = false;
    while i < cs.len() && !found
        invariant
            cs@ == title@,
            0 <= i <= cs.len(),
            found ==> i > 0 && is_markdown_control(cs@[i - 1]),
            !found ==> forall|j: int| 0 <= j < i ==> !is_markdown_control(#[trigger] cs@[j]),
        decreases cs.len() - i + (if found { 0int } else { 1int }),
    {
        found = is_markdown_control_char(cs[i]);
        i += 1;
    }
    if !found {
        proof {
            lemma_escaped_identity(title@);
        }
        return Cow::Borrowed(title);
    }
    let mut out = String::new();
    let mut i: usize = 0;
    while i < cs.len()
        invariant
            cs@ == title@,
            0 <= i <= cs.len(),
            out@ == escaped(title@.take(i as int)),
        decreases cs.len() - i,
    {
        let c = cs[i];
        proof {
            lemma_escaped_take(title@, i as int);
        }
        if is_markdown_control_char(c) {
            push_char(&mut out, '\\');
        }
        push_char(&mut out, c);
        i += 1;
    }
    assert(title@.take(cs.len() as int) =~= title@);
    Cow::Owned(out)
}

/// Length of the longest prefix of `cs` whose encoding takes at most `n` bytes.
fn prefix_within(cs: &Vec<char>, n: usize) -> (r: (usize, usize))
    ensures
        is_prefix_within(cs@, n as int, r.0 as int),
        r.1 == utf8_len(cs@.take(r.0 as int)),
{
    let mut k: usize = 0;
    let mut used: usize = 0;
    let mut stop = false;
    while k < cs.len() && !stop
        invariant
            0 <= k <= cs.len(),
            used == utf8_len(cs@.take(k as int)),
            used <= n,
            stop ==> k < cs.len() && utf8_len(cs@.take(k + 1)) > n,
        decreases cs.len() - k + (if stop { 0int } else { 1int }),
    {
        let w = char_width(cs[k]);
        proof {
            lemma_encode_push(cs@, k as int);
        }
        if w > n - used {
            stop = true;
        } else {
            used = used + w;
            k += 1;
        }
    }
    (k, used)
}

/// The number of bytes of `s`, where it is at most `n`.
pub fn utf8_len_within(s: &str, n: usize) -> (r: Option<usize>)
    ensures
        match r {
            Some(m) => m == utf8_len(s@) && m <= n,
            None => utf8_len(s@) > n,
        },
{
    let cs = chars_of(s);
    let (k, used) = prefix_within(&cs, n);
    if k == cs.len() {
        assert(s@.take(k as int) =~= s@);
        Some(used)
    } else {
        proof {
            lemma_utf8_len_monotone(s@, k + 1, s@.len() as int);
            assert(s@.take(s@.len() as int) =~= s@);
        }
        None
    }
}

/// Limits `text` to `limit` bytes: longer text is cut at the last character boundary
/// that leaves room for `" [...]"`, and that marker is appended.
pub fn limit_len(text: &str, limit: usize) -> (r: Cow<'_, str>)
    ensures
        r@ == limit_text(text@, limit as int),
        (r is Borrowed) == (utf8_len(text@) <= limit),
{
    let cs = chars_of(text);
    let (whole, _) = prefix_within(&cs, limit);
    if whole == cs.len() {
        assert(text@.take(whole as int) =~= text@);
        return Cow::Borrowed(text);
    }
    proof {
        let t = text@;
        assert(t =~= t.take(whole + 1) + t.skip(whole + 1));
        lemma_encode_concat(t.take(whole + 1), t.skip(whole + 1));
        assert(utf8_len(t) > limit);
    }
    let cut: usize = if limit >= 6 {
        limit - 6
    } else {
        0
    };
    let (k, _) = prefix_within(&cs, cut);
    let mut out = String::from_str(text.substring_char(0, k));
    out.append(" [...]");
    proof {
        reveal_strlit(" [...]");
        assert(out@ =~= text@.take(k as int) + seq![' '] + shortened_marker());
        assert(cut == cut_bytes(limit as int));
        assert(is_prefix_within(text@, cut_bytes(limit as int), k as int));
        lemma_prefix_len(text@, cut_bytes(limit as int), k as int);
    }
    Cow::Owned(out)
}

/// The text of `c` as an owned string.
pub fn into_owned(c: Cow<'_, str>) -> (r: String)
    ensures
        r@ == c@,
{
    match c {
        Cow::Borrowed(s) => String::from_str(s),
        Cow::Owned(s) => s,
    }
}

/// Limits an embed description to the platform's description length.
pub fn limit_descr_len(text: &str) -> (r: Cow<'_, str>)
    ensures
        r@ == limit_text(text@, EMBED_CONTENT_MAX_LEN as int),
{
    limit_len(text, EMBED_CONTENT_MAX_LEN)
}

/// Longest description, in bytes, that an embed may hold.
pub const EMBED_CONTENT_MAX_LEN: usize = 2048;

/// Longest title, in bytes, that an embed may hold.
pub const EMBED_TITLE_MAX_LEN: usize = 256;

} // verus!
