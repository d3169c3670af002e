//! Reading and rewriting HTML: the calls into `scraper` and `lol_html`.
//!
//! Each reading function parses a whole document with `scraper` and reports,
//! for every element that matches an item selector, something about the
//! elements inside it: one entry per match, in document order, however many
//! readings are taken of one document. Each rewriting function runs `lol_html` over a document
//! once. What these crates compute is named here and not restated: the names
//! stand for their results, as functions of the texts handed to them.
//!
//! Every rewriting pass runs with `lol_html`'s strict parsing and without
//! support for Edge Side Includes tags, as `lol_html::Settings::default()`
//! has them (`RewriteStrSettings::default()` would turn that support on).
//!
//! The HTML that `scraper` writes out of an element is a function of the page
//! only with its `deterministic` feature, which keeps each element's
//! attributes in document order (`IndexMap`); without it they sit in a map
//! seeded per process. Cargo.toml enables the feature.
use vstd::prelude::*;
use std::borrow::Cow;
use lol_html::html_content::{ContentType, Element, TextChunk};
use lol_html::{ElementContentHandlers, RewriteStrSettings};
use scraper::{ElementRef, Html, Selector};

use crate::generate::MockupError;

verus! {

// ---------------------------------------------------------------------------
// Reading, with scraper
// ---------------------------------------------------------------------------

/// Whether `scraper::Selector::parse` accepts the CSS selector `selector`.
pub uninterp spec fn scraper_selector_parses(selector: Seq<char>) -> bool;

/// The number of elements of the document `html` that match the selector
/// `item` (`Html::parse_document` and `Html::select`).
pub uninterp spec fn item_count(html: Seq<char>, item: Seq<char>) -> nat;

/// For each element of the document `html` that matches the selector `item`,
/// in document order, the number of elements inside it that match `inner`.
pub uninterp spec fn item_match_counts(html: Seq<char>, item: Seq<char>, inner: Seq<char>) -> Seq<usize>;

/// For each element of `html` matching `item`, the value of the attribute
/// `attr` of the first element inside it that matches `inner`, if there is
/// such an element and it has the attribute.
pub uninterp spec fn item_first_attributes(html: Seq<char>, item: Seq<char>, inner: Seq<char>, attr: Seq<char>) -> Seq<Option<Seq<char>>>;

/// For each element of `html` matching `item`, the inner HTML of each element
/// inside it that matches `inner`.
pub uninterp spec fn item_inner_htmls(html: Seq<char>, item: Seq<char>, inner: Seq<char>) -> Seq<Seq<Seq<char>>>;

/// For each element of `html` matching `item`, the HTML of its first child
/// node, if that node is an element.
pub uninterp spec fn item_first_child_htmls(html: Seq<char>, item: Seq<char>) -> Seq<Option<Seq<char>>>;

/// Counts, with `Html::parse_document`, `Selector::parse`, `Html::select` and
/// `ElementRef::select`, the matches of `inner` inside each match of `item`.
/// The contract claims that the call fails exactly when a selector does not
/// parse, and that a successful result is a function of the three texts.
#[verifier::external_body]
pub(crate) fn count_in_items(html: &str, item: &str, inner: &str) -> (r: Result<Vec<usize>, MockupError>)
    ensures
        r is Ok <==> (scraper_selector_parses(item@) && scraper_selector_parses(inner@)),
        r matches Ok(v) ==> v@ == item_match_counts(html@, item@, inner@),
        r matches Ok(v) ==> v@.len() == item_count(html@, item@),
{
    let item = Selector::parse(item).map_err(|e| MockupError { why: format!("{:?}", e) })?;
    let inner = Selector::parse(inner).map_err(|e| MockupError { why: format!("{:?}", e) })?;
    let doc = Html::parse_document(html);
    Ok(doc.select(&item).map(|e| e.select(&inner).count()).collect())
}

/// Reads, with `scraper`, the attribute `attr` of the first match of `inner`
/// inside each match of `item` (`ElementRef::attr`). The contract claims that
/// the call fails exactly when a selector does not parse, and that a
/// successful result is a function of the four texts.
#[verifier::external_body]
pub(crate) fn first_attribute_in_items(html: &str, item: &str, inner: &str, attr: &str) -> (r: Result<Vec<Option<String>>, MockupError>)
    ensures
        r is Ok <==> (scraper_selector_parses(item@) && scraper_selector_parses(inner@)),
        r matches Ok(v) ==> v.deep_view() == item_first_attributes(html@, item@, inner@, attr@),
        r matches Ok(v) ==> v@.len() == item_count(html@, item@),
{
    let item = Selector::parse(item).map_err(|e| MockupError { why: format!("{:?}", e) })?;
    let inner = Selector::parse(inner).map_err(|e| MockupError { why: format!("{:?}", e) })?;
    let doc = Html::parse_document(html);
    Ok(doc.select(&item).map(|e| e.select(&inner).next().and_then(|m| m.attr(attr)).map(|a| a.to_string())).collect())
}

/// Reads, with `scraper`, the inner HTML (`ElementRef::inner_html`) of every
/// match of `inner` inside each match of `item`. The contract claims that the
/// call fails exactly when a selector does not parse, and that a successful
/// result is a function of the three texts: with the `deterministic` feature,
/// `inner_html` writes attributes in document order.
#[verifier::external_body]
pub(crate) fn inner_htmls_in_items(html: &str, item: &str, inner: &str) -> (r: Result<Vec<Vec<String>>, MockupError>)
    ensures
        r is Ok <==> (scraper_selector_parses(item@) && scraper_selector_parses(inner@)),
        r matches Ok(v) ==> v.deep_view() == item_inner_htmls(html@, item@, inner@),
        r matches Ok(v) ==> v@.len() == item_count(html@, item@),
{
    let item = Selector::parse(item).map_err(|e| MockupError { why: format!("{:?}", e) })?;
    let inner = Selector::parse(inner).map_err(|e| MockupError { why: format!("{:?}", e) })?;
    let doc = Html::parse_document(html);
    Ok(doc.select(&item).map(|e| e.select(&inner).map(|m| m.inner_html()).collect()).collect())
}

/// Reads, with `scraper`, the HTML (`ElementRef::html`) of the first child of
/// each match of `item`, when that child is an element (`ElementRef::wrap`).
/// The contract claims that the call fails exactly when the selector does not
/// parse, and that a successful result is a function of the two texts: with
/// the `deterministic` feature, `html` writes attributes in document order.
#[verifier::external_body]
pub(crate) fn first_child_html_in_items(html: &str, item: &str) -> (r: Result<Vec<Option<String>>, MockupError>)
    ensures
        r is Ok <==> scraper_selector_parses(item@),
        r matches Ok(v) ==> v.deep_view() == item_first_child_htmls(html@, item@),
        r matches Ok(v) ==> v@.len() == item_count(html@, item@),
{
    let item = Selector::parse(item).map_err(|e| MockupError { why: format!("{:?}", e) })?;
    let doc = Html::parse_document(html);
    Ok(doc.select(&item).map(|e| e.first_child().and_then(ElementRef::wrap).map(|c| c.html())).collect())
}

// ---------------------------------------------------------------------------
// Rewriting, with lol_html
// ---------------------------------------------------------------------------

/// `html` rewritten by `lol_html` in one pass in which, for each rule
/// `(selector, name, value)`, every element matching `selector` gets the
/// attribute `name` set to `value`; `None` when rewriting fails.
pub uninterp spec fn attributes_set(html: Seq<char>, rules: Seq<(Seq<char>, Seq<char>, Seq<char>)>) -> Option<Seq<char>>;

/// `html` rewritten by `lol_html` in one pass in which every text chunk inside
/// an element matching `selector` that equals the first text of a swap is
/// replaced by that swap's second text (the first such swap), as text;
/// `None` when rewriting fails.
pub uninterp spec fn texts_swapped(html: Seq<char>, selector: Seq<char>, swaps: Seq<(Seq<char>, Seq<char>)>) -> Option<Seq<char>>;

/// `html` rewritten by `lol_html` in one pass in which the inner content of
/// the `n`-th element matching `selector` (counting from zero, in the order of
/// their start tags) is replaced by the HTML `content`; `None` when rewriting
/// fails.
pub uninterp spec fn nth_inner_content_set(html: Seq<char>, selector: Seq<char>, n: usize, content: Seq<char>) -> Option<Seq<char>>;

/// `html` rewritten by `lol_html` in one pass in which, for each rule
/// `(selector, content)`, the HTML `content` is put at the start of the inner
/// content of every element matching `selector`; `None` when rewriting fails.
pub uninterp spec fn contents_prepended(html: Seq<char>, rules: Seq<(Seq<char>, Seq<char>)>) -> Option<Seq<char>>;

/// Sets attributes with `lol_html::rewrite_str`, an element handler per rule
/// (`Element::set_attribute`). The contract claims that whether the call
/// succeeds, and what it returns, are functions of the text and the rules
/// (`lol_html` fails on a selector that does not parse, on an invalid
/// attribute name, and on markup it finds ambiguous; with the default settings
/// it sets no memory limit).
#[verifier::external_body]
pub(crate) fn set_attributes(html: &str, rules: &Vec<(String, String, String)>) -> (r: Result<String, MockupError>)
    ensures
        r is Ok <==> attributes_set(html@, rules.deep_view()) is Some,
        r matches Ok(s) ==> attributes_set(html@, rules.deep_view()) == Some(s@),
{
    let mut handlers = vec![];
    for (selector, name, value) in rules.iter() {
        let s: lol_html::Selector = selector.parse().map_err(|e| MockupError { why: format!("{}", e) })?;
        handlers.push((Cow::Owned(s), ElementContentHandlers::default().element(move |el: &mut Element| Ok(el.set_attribute(name, value)?))));
    }
    let settings = RewriteStrSettings { element_content_handlers: handlers, enable_esi_tags: false, ..RewriteStrSettings::default() };
    lol_html::rewrite_str(html, settings).map_err(|e| MockupError { why: format!("{}", e) })
}

/// The first swap whose first text equals `chunk`.
pub(crate) fn swap_for(chunk: &str, swaps: &Vec<(String, String)>) -> (r: Option<usize>)
    ensures
        r matches Some(i) ==> i < swaps@.len() && swaps@[i as int].0@ == chunk@
            && forall|j: int| 0 <= j < i ==> #[trigger] swaps@[j].0@ != chunk@,
        r is None ==> forall|j: int| 0 <= j < swaps@.len() ==> #[trigger] swaps@[j].0@ != chunk@,
{
    let mut i: usize = 0;
    while i < swaps.len()
        invariant
            i <= swaps@.len(),
            forall|j: int| 0 <= j < i ==> #[trigger] swaps@[j].0@ != chunk@,
        decreases swaps@.len() - i,
    {
        if crate::text::same_text(swaps[i].0.as_str(), chunk) {
            return Some(i);
        }
        i = i + 1;
    }
    None
}

/// Replaces text chunks with `lol_html::rewrite_str` and a text handler
/// (`TextChunk::replace`) that asks [`swap_for`] which swap applies. The
/// contract claims that whether the call succeeds, and what it returns, are
/// functions of the text, the selector and the swaps.
#[verifier::external_body]
pub(crate) fn swap_texts(html: &str, selector: &str, swaps: &Vec<(String, String)>) -> (r: Result<String, MockupError>)
    ensures
        r is Ok <==> texts_swapped(html@, selector@, swaps.deep_view()) is Some,
        r matches Ok(s) ==> texts_swapped(html@, selector@, swaps.deep_view()) == Some(s@),
{
    let s: lol_html::Selector = selector.parse().map_err(|e| MockupError { why: format!("{}", e) })?;
    let handler = ElementContentHandlers::default().text(move |t: &mut TextChunk| {
        if let Some(i) = swap_for(t.as_str(), swaps) { t.replace(&swaps[i].1, ContentType::Text) }
        Ok(())
    });
    let settings = RewriteStrSettings { element_content_handlers: vec![(Cow::Owned(s), handler)], enable_esi_tags: false, ..RewriteStrSettings::default() };
    lol_html::rewrite_str(html, settings).map_err(|e| MockupError { why: format!("{}", e) })
}

/// Whether the element that `seen` counts is the `target`-th; counts it.
pub(crate) fn take_turn(seen: &mut usize, target: usize) -> (hit: bool)
    ensures
        hit == (*old(seen) == target),
        *old(seen) < usize::MAX ==> *final(seen) == *old(seen) + 1,
        *old(seen) == usize::MAX ==> *final(seen) == usize::MAX,
{
    let hit = *seen == target;
    if *seen < usize::MAX {
        *seen = *seen + 1;
    }
    hit
}

/// Replaces the inner content of the `n`-th match of `selector` with
/// `lol_html::rewrite_str` and an element handler
/// (`Element::set_inner_content`) that counts matches with [`take_turn`]. The
/// contract claims that whether the call succeeds, and what it returns, are
/// functions of its arguments.
#[verifier::external_body]
pub(crate) fn set_nth_inner_content(html: &str, selector: &str, n: usize, content: &str) -> (r: Result<String, MockupError>)
    ensures
        r is Ok <==> nth_inner_content_set(html@, selector@, n, content@) is Some,
        r matches Ok(s) ==> nth_inner_content_set(html@, selector@, n, content@) == Some(s@),
{
    let s: lol_html::Selector = selector.parse().map_err(|e| MockupError { why: format!("{}", e) })?;
    let mut seen: usize = 0;
    let handler = ElementContentHandlers::default().element(move |el: &mut Element| {
        if take_turn(&mut seen, n) { el.set_inner_content(content, ContentType::Html) }
        Ok(())
    });
    let settings = RewriteStrSettings { element_content_handlers: vec![(Cow::Owned(s), handler)], enable_esi_tags: false, ..RewriteStrSettings::default() };
    lol_html::rewrite_str(html, settings).map_err(|e| MockupError { why: format!("{}", e) })
}

/// Prepends content with `lol_html::rewrite_str`, an element handler per rule
/// (`Element::prepend`, as HTML). The contract claims that whether the call
/// succeeds, and what it returns, are functions of the text and the rules.
#[verifier::external_body]
pub(crate) fn prepend_contents(html: &str, rules: &Vec<(String, String)>) -> (r: Result<String, MockupError>)
    ensures
        r is Ok <==> contents_prepended(html@, rules.deep_view()) is Some,
        r matches Ok(s) ==> contents_prepended(html@, rules.deep_view()) == Some(s@),
{
    let mut handlers = vec![];
    for (selector, content) in rules.iter() {
        let s: lol_html::Selector = selector.parse().map_err(|e| MockupError { why: format!("{}", e) })?;
        handlers.push((Cow::Owned(s), ElementContentHandlers::default().element(move |el: &mut Element| Ok(el.prepend(content, ContentType::Html)))));
    }
    let settings = RewriteStrSettings { element_content_handlers: handlers, enable_esi_tags: false, ..RewriteStrSettings::default() };
    lol_html::rewrite_str(html, settings).map_err(|e| MockupError { why: format!("{}", e) })
}

} // verus!
