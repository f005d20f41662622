//! Reading parts of HTML pages, through the scraper crate's parser and CSS selectors.
use vstd::prelude::*;
use vstd::string::StringExecFns;

verus! {

/// For each element of the page `doc` that the CSS selector `selector` matches, in
/// document order, its descendant text nodes in order. Empty where `selector` is not
/// a valid selector.
pub uninterp spec fn selected_text_nodes(doc: Seq<char>, selector: Seq<char>) -> Seq<Seq<Seq<char>>>;

/// For each element of the page `doc` that the CSS selector `selector` matches, in
/// document order, the value of its attribute `attr`, if it has it. Empty where
/// `selector` is not a valid selector.
pub uninterp spec fn selected_attrs(doc: Seq<char>, selector: Seq<char>, attr: Seq<char>) -> Seq<Option<Seq<char>>>;

/// Relies on scraper::Html::parse_document, scraper::Selector::parse, Html::select and
/// ElementRef::text: the text nodes of the matching elements.
#[verifier::external_body]
fn select_text_nodes(doc: &str, selector: &str) -> (r: Vec<Vec<String>>)
    ensures
        r@.map_values(|e: Vec<String>| e@.map_values(|t: String| t@)) == selected_text_nodes(doc@, selector@),
{
    let html = ::scraper::Html::parse_document(doc);
    match ::scraper::Selector::parse(selector) {
        Ok(sel) => html.select(&sel).map(|e| e.text().map(|t| t.to_string()).collect()).collect(),
        Err(_) => Vec::new(),
    }
}

/// Relies on scraper::Html::parse_document, scraper::Selector::parse, Html::select and
/// ElementRef::attr: the attribute of the matching elements.
#[verifier::external_body]
fn select_attrs(doc: &str, selector: &str, attr: &str) -> (r: Vec<Option<String>>)
    ensures
        r@.map_values(|a: Option<String>| match a { Some(s) => Some(s@), None => None }) == selected_attrs(doc@, selector@, attr@),
{
    let html = ::scraper::Html::parse_document(doc);
    match ::scraper::Selector::parse(selector) {
        Ok(sel) => html.select(&sel).map(|e| e.attr(attr).map(|a| a.to_string())).collect(),
        Err(_) => Vec::new(),
    }
}

/// The concatenation of `parts`.
pub open spec fn joined(parts: Seq<Seq<char>>) -> Seq<char>
    decreases parts.len(),
{
    if parts.len() == 0 {
        Seq::empty()
    } else {
        joined(parts.drop_last()) + parts.last()
    }
}

/// The text of each element that `selector` matches in `doc`.
pub open spec fn selected_texts(doc: Seq<char>, selector: Seq<char>) -> Seq<Seq<char>> {
    selected_text_nodes(doc, selector).map_values(|nodes: Seq<Seq<char>>| joined(nodes))
}

/// The text nodes of each element that `selector` matches in `doc`.
pub fn text_nodes(doc: &str, selector: &str) -> (r: Vec<Vec<String>>)
    ensures
        r@.map_values(|e: Vec<String>| e@.map_values(|t: String| t@)) == selected_text_nodes(doc@, selector@),
{
    select_text_nodes(doc, selector)
}

/// The attribute `attr` of each element that `selector` matches in `doc`.
pub fn attrs(doc: &str, selector: &str, attr: &str) -> (r: Vec<Option<String>>)
    ensures
        r@.map_values(|a: Option<String>| match a { Some(s) => Some(s@), None => None }) == selected_attrs(doc@, selector@, attr@),
{
    select_attrs(doc, selector, attr)
}

/// The concatenation of `parts`.
pub fn join_all(parts: &Vec<String>) -> (r: String)
    ensures
        r@ == joined(parts@.map_values(|t: String| t@)),
{
    let ghost v = parts@.map_values(|t: String| t@);
    let mut r = String::new();
    let mut i: usize = 0;
    assert(v.take(0) =~= Seq::<Seq<char>>::empty());
    while i < parts.len()
        invariant
            v == parts@.map_values(|t: String| t@),
            0 <= i <= parts.len(),
            r@ == joined(v.take(i as int)),
        decreases parts.len() - i,
    {
        assert(v.take(i + 1).drop_last() =~= v.take(i as int));
        r.append(parts[i].as_str());
        i += 1;
    }
    assert(v.take(i as int) =~= v);
    r
}

/// The text of each element that `selector` matches in `doc`.
pub fn texts(doc: &str, selector: &str) -> (r: Vec<String>)
    ensures
        r@.map_values(|t: String| t@) == selected_texts(doc@, selector@),
{
    let nodes = text_nodes(doc, selector);
    let ghost nv = nodes@.map_values(|e: Vec<String>| e@.map_values(|t: String| t@));
    let mut r: Vec<String> = Vec::new();
    let mut i: usize = 0;
    while i < nodes.len()
        invariant
            nv == nodes@.map_values(|e: Vec<String>| e@.map_values(|t: String| t@)),
            nv == selected_text_nodes(doc@, selector@),
            0 <= i <= nodes.len(),
            r@.map_values(|t: String| t@) == nv.take(i as int).map_values(|n: Seq<Seq<char>>| joined(n)),
        decreases nodes.len() - i,
    {
        let t = join_all(&nodes[i]);
        assert(nv[i as int] == nodes@[i as int]@.map_values(|t: String| t@));
        let ghost before = r@;
        r.push(t);
        assert(r@.map_values(|t: String| t@) =~= before.map_values(|t: String| t@).push(t@));
        assert(r@.map_values(|t: String| t@) =~= nv.take(i + 1).map_values(|n: Seq<Seq<char>>| joined(n)));
        i += 1;
    }
    assert(nv.take(i as int) =~= nv);
    r
}

} // verus!
