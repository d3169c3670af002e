//! Mockups of a Play Store listing: which kind of page a listing is, which
//! list items are apps, and the page with one item replaced by the user's app.
use vstd::prelude::*;
use vstd::string::*;

use crate::markup::{
    attributes_set, contents_prepended, count_in_items, first_attribute_in_items,
    first_child_html_in_items, inner_htmls_in_items, item_first_attributes, item_first_child_htmls,
    item_inner_htmls, item_match_counts, nth_inner_content_set, prepend_contents, scraper_selector_parses,
    set_attributes, set_nth_inner_content, swap_texts, texts_swapped,
};
use crate::model::{AppEntry, AppEntryView, UserAppEntry, UserAppEntryView};

verus! {

/// Why a mockup could not be made.
#[derive(Debug)]
pub struct MockupError {
    pub why: String,
}

impl Clone for MockupError {
    fn clone(&self) -> (e: Self)
        ensures
            e == *self,
    {
        MockupError { why: self.why.clone() }
    }
}

impl MockupError {
    /// The error's message: its reason, then ` while mocking up content`.
    pub fn message(&self) -> (m: String)
        ensures
            m@ == self.why@ + " while mocking up content"@,
    {
        self.why.clone().concat(" while mocking up content")
    }
}

/// The kind of a Play Store result page: a plain list of apps, or a page that
/// leads with a featured ("hero") app.
#[derive(Debug, Clone, Copy, PartialEq, Eq, Structural)]
pub enum PageType {
    List,
    Hero,
}

/// The CSS selector of a list item.
pub open spec fn listitem_selector() -> Seq<char> {
    "div[role=\"listitem\"]"@
}

/// The CSS selector of a screenshot (feature) image.
pub open spec fn screenshot_selector() -> Seq<char> {
    "img[alt=\"Screenshot image\"]"@
}

/// The CSS selector of a thumbnail (icon) image.
pub open spec fn thumbnail_selector() -> Seq<char> {
    "img[alt=\"Thumbnail image\"]"@
}

// ---------------------------------------------------------------------------
// The kind of a page
// ---------------------------------------------------------------------------

/// The numbers of elements of each kind inside one list item.
#[derive(Debug, Clone, Copy)]
pub struct ItemCounts {
    pub screenshots: usize,
    pub thumbnails: usize,
    pub spans: usize,
    pub links: usize,
    pub images: usize,
    pub buttons: usize,
}

/// A list item that shows one app: one screenshot, one thumbnail, at least two
/// spans (title and developer) and one link.
pub open spec fn is_app_item(screenshots: usize, thumbnails: usize, spans: nat, links: usize) -> bool {
    screenshots == 1 && thumbnails == 1 && spans >= 2 && links == 1
}

/// Scanning the items in order: whether a featured video (an item with one
/// button and one image) and whether featured screenshots (an item with a
/// screenshot, seen before any featured video) were found among the items that
/// are no apps.
pub open spec fn hero_flags(items: Seq<ItemCounts>) -> (bool, bool)
    decreases items.len(),
{
    if items.len() == 0 {
        (false, false)
    } else {
        let (video, screenshots) = hero_flags(items.drop_last());
        let it = items.last();
        if is_app_item(it.screenshots, it.thumbnails, it.spans as nat, it.links) {
            (video, screenshots)
        } else if !video && it.screenshots > 0 {
            (video, true)
        } else if it.buttons == 1 && it.images == 1 {
            (true, screenshots)
        } else {
            (video, screenshots)
        }
    }
}

/// A page with a featured video or featured screenshots is a hero page.
pub open spec fn page_kind(items: Seq<ItemCounts>) -> PageType {
    let (video, screenshots) = hero_flags(items);
    if video || screenshots { PageType::Hero } else { PageType::List }
}

/// A list item that features an app: no app item, and holding a screenshot,
/// or exactly one button and one image (a video).
pub open spec fn featured_item(it: ItemCounts) -> bool {
    &&& !is_app_item(it.screenshots, it.thumbnails, it.spans as nat, it.links)
    &&& (it.screenshots > 0 || (it.buttons == 1 && it.images == 1))
}

/// Some item of `items` features an app.
pub open spec fn has_featured_item(items: Seq<ItemCounts>) -> bool {
    exists|i: int| 0 <= i < items.len() && #[trigger] featured_item(items[i])
}

/// A page is a hero page exactly when one of its list items, not an app,
/// holds a screenshot, or exactly one button and one image.
pub proof fn law_hero_iff_featured_item(items: Seq<ItemCounts>)
    ensures
        (page_kind(items) == PageType::Hero) <==> has_featured_item(items),
    decreases items.len(),
{
    if items.len() > 0 {
        let d = items.drop_last();
        law_hero_iff_featured_item(d);
        let it = items.last();
        assert(it == items[items.len() - 1]);
        let (video, screenshots) = hero_flags(d);
        assert((page_kind(d) == PageType::Hero) == (video || screenshots));
        let (v2, s2) = hero_flags(items);
        assert((page_kind(items) == PageType::Hero) == (v2 || s2));
        assert((v2 || s2) == (video || screenshots || featured_item(it)));
        if featured_item(it) {
            assert(featured_item(items[items.len() - 1]));
        }
        if has_featured_item(d) {
            let i = choose|i: int| 0 <= i < d.len() && #[trigger] featured_item(d[i]);
            assert(items[i] == d[i]);
        }
        if has_featured_item(items) && !featured_item(items.last()) {
            let i = choose|i: int| 0 <= i < items.len() && #[trigger] featured_item(items[i]);
            assert(i < d.len());
            assert(items[i] == d[i]);
        }
    }
}

/// The shape of an app item: exactly one screenshot, exactly one thumbnail,
/// exactly one link and at least two spans. An item with several screenshots,
/// or none, is no app item.
pub proof fn law_app_item_shape(screenshots: usize, thumbnails: usize, spans: nat, links: usize)
    ensures
        is_app_item(screenshots, thumbnails, spans, links) ==> screenshots == 1,
        is_app_item(screenshots, thumbnails, spans, links) ==> thumbnails == 1,
        is_app_item(screenshots, thumbnails, spans, links) ==> links == 1,
        is_app_item(screenshots, thumbnails, spans, links) ==> spans >= 2,
        screenshots == 1 && thumbnails == 1 && links == 1 && spans >= 2 ==> is_app_item(screenshots, thumbnails, spans, links),
{
}

/// A page with a list item holding more than one screenshot is a hero page:
/// such an item shows no app, and features one.
pub proof fn law_several_screenshots_make_a_hero(items: Seq<ItemCounts>, i: int)
    requires
        0 <= i < items.len(),
        items[i].screenshots > 1,
    ensures
        page_kind(items) == PageType::Hero,
        !is_app_item(items[i].screenshots, items[i].thumbnails, items[i].spans as nat, items[i].links),
{
    assert(featured_item(items[i]));
    law_hero_iff_featured_item(items);
}

/// The kind of a page whose list items hold `items`.
pub fn classify_listing(items: &Vec<ItemCounts>) -> (t: PageType)
    ensures
        t == page_kind(items@),
{
    let mut video = false;
    let mut screenshots = false;
    let mut i: usize = 0;
    while i < items.len()
        invariant
            i <= items@.len(),
            (video, screenshots) == hero_flags(items@.take(i as int)),
        decreases items@.len() - i,
    {
        let it = items[i];
        assert(items@.take(i + 1 as int).drop_last() =~= items@.take(i as int));
        if it.screenshots == 1 && it.thumbnails == 1 && it.spans >= 2 && it.links == 1 {
        } else if !video && it.screenshots > 0 {
            screenshots = true;
        } else if it.buttons == 1 && it.images == 1 {
            video = true;
        }
        i = i + 1;
    }
    assert(items@.take(items@.len() as int) =~= items@);
    if video || screenshots { PageType::Hero } else { PageType::List }
}

/// The counts of the list items of `html`, as read by `scraper`.
pub open spec fn scraped_counts(html: Seq<char>) -> Seq<ItemCounts> {
    let screenshots = item_match_counts(html, listitem_selector(), screenshot_selector());
    let thumbnails = item_match_counts(html, listitem_selector(), thumbnail_selector());
    let spans = item_match_counts(html, listitem_selector(), "span"@);
    let links = item_match_counts(html, listitem_selector(), "a"@);
    let images = item_match_counts(html, listitem_selector(), "img"@);
    let buttons = item_match_counts(html, listitem_selector(), "button"@);
    Seq::new(screenshots.len(), |i: int| ItemCounts {
        screenshots: screenshots[i],
        thumbnails: thumbnails[i],
        spans: spans[i],
        links: links[i],
        images: images[i],
        buttons: buttons[i],
    })
}

/// The six readings of the list items of `html` have one entry per item.
pub open spec fn counts_consistent(html: Seq<char>) -> bool {
    let n = item_match_counts(html, listitem_selector(), screenshot_selector()).len();
    &&& item_match_counts(html, listitem_selector(), thumbnail_selector()).len() == n
    &&& item_match_counts(html, listitem_selector(), "span"@).len() == n
    &&& item_match_counts(html, listitem_selector(), "a"@).len() == n
    &&& item_match_counts(html, listitem_selector(), "img"@).len() == n
    &&& item_match_counts(html, listitem_selector(), "button"@).len() == n
}

/// `scraper` accepts the selectors with which [`page_type`] reads list items.
pub open spec fn page_selectors_parse() -> bool {
    &&& scraper_selector_parses(listitem_selector())
    &&& scraper_selector_parses(screenshot_selector())
    &&& scraper_selector_parses(thumbnail_selector())
    &&& scraper_selector_parses("span"@)
    &&& scraper_selector_parses("a"@)
    &&& scraper_selector_parses("img"@)
    &&& scraper_selector_parses("button"@)
}

/// Whether the Play Store page `html` leads with a featured app (a hero
/// page) or is a plain list. Fails when `scraper` cannot read the page's list
/// items.
pub fn page_type(html: &str) -> (r: Result<PageType, MockupError>)
    ensures
        r is Ok <==> page_selectors_parse(),
        page_selectors_parse() ==> counts_consistent(html@),
        r matches Ok(t) ==> t == page_kind(scraped_counts(html@)),
{
    let item = "div[role=\"listitem\"]";
    let screenshots = count_in_items(html, item, "img[alt=\"Screenshot image\"]")?;
    let thumbnails = count_in_items(html, item, "img[alt=\"Thumbnail image\"]")?;
    let spans = count_in_items(html, item, "span")?;
    let links = count_in_items(html, item, "a")?;
    let images = count_in_items(html, item, "img")?;
    let buttons = count_in_items(html, item, "button")?;
    let n = screenshots.len();
    if thumbnails.len() != n || spans.len() != n || links.len() != n || images.len() != n || buttons.len() != n {
        return Err(MockupError { why: String::from_str("list items read inconsistently") });
    }
    let mut items: Vec<ItemCounts> = Vec::new();
    let mut i: usize = 0;
    while i < n
        invariant
            i <= n,
            n == screenshots@.len() && n == thumbnails@.len() && n == spans@.len(),
            n == links@.len() && n == images@.len() && n == buttons@.len(),
            items@.len() == i,
            forall|k: int| 0 <= k < i ==> #[trigger] items@[k] == (ItemCounts {
                screenshots: screenshots@[k],
                thumbnails: thumbnails@[k],
                spans: spans@[k],
                links: links@[k],
                images: images@[k],
                buttons: buttons@[k],
            }),
        decreases n - i,
    {
        items.push(ItemCounts {
            screenshots: screenshots[i],
            thumbnails: thumbnails[i],
            spans: spans[i],
            links: links[i],
            images: images[i],
            buttons: buttons[i],
        });
        i = i + 1;
    }
    assert(items@ =~= scraped_counts(html@));
    Ok(classify_listing(&items))
}

// ---------------------------------------------------------------------------
// The apps of a page
// ---------------------------------------------------------------------------

/// What `scraper` reads of one list item.
///  - `screenshots`, `thumbnails`, `links`: numbers of such elements
///  - `spans`: the inner HTML of each span
///  - `screenshot_src`, `thumbnail_src`: the `src` of the first such image
///  - `link_href`: the `href` of the first link
///  - `first_child_html`: the HTML of the item's first child, if an element
#[derive(Debug)]
pub struct ScrapedItem {
    pub screenshots: usize,
    pub thumbnails: usize,
    pub links: usize,
    pub spans: Vec<String>,
    pub screenshot_src: Option<String>,
    pub thumbnail_src: Option<String>,
    pub link_href: Option<String>,
    pub first_child_html: Option<String>,
}

/// The values of a [`ScrapedItem`].
pub struct ScrapedItemView {
    pub screenshots: usize,
    pub thumbnails: usize,
    pub links: usize,
    pub spans: Seq<Seq<char>>,
    pub screenshot_src: Option<Seq<char>>,
    pub thumbnail_src: Option<Seq<char>>,
    pub link_href: Option<Seq<char>>,
    pub first_child_html: Option<Seq<char>>,
}

impl View for ScrapedItem {
    type V = ScrapedItemView;

    open spec fn view(&self) -> ScrapedItemView {
        ScrapedItemView {
            screenshots: self.screenshots,
            thumbnails: self.thumbnails,
            links: self.links,
            spans: self.spans.deep_view(),
            screenshot_src: self.screenshot_src.deep_view(),
            thumbnail_src: self.thumbnail_src.deep_view(),
            link_href: self.link_href.deep_view(),
            first_child_html: self.first_child_html.deep_view(),
        }
    }
}

/// The values of a sequence of [`ScrapedItem`]s.
pub open spec fn items_view(items: Seq<ScrapedItem>) -> Seq<ScrapedItemView> {
    items.map_values(|it: ScrapedItem| it@)
}

/// The item shows an app.
pub open spec fn item_is_app(it: ScrapedItemView) -> bool {
    is_app_item(it.screenshots, it.thumbnails, it.spans.len(), it.links)
}

/// An app item has all that its entry is made of: both image sources, a
/// title, a developer and a rating, a link and an element as first child.
pub open spec fn item_complete(it: ScrapedItemView) -> bool {
    &&& it.screenshot_src is Some
    &&& it.thumbnail_src is Some
    &&& it.spans.len() >= 3
    &&& it.link_href is Some
    &&& it.first_child_html is Some
}

/// The entry of an app item.
pub open spec fn entry_of(it: ScrapedItemView) -> AppEntryView {
    AppEntryView {
        feature: it.screenshot_src->0,
        icon: it.thumbnail_src->0,
        title: it.spans[0],
        developer: it.spans[1],
        rating: it.spans[2],
        link: it.link_href->0,
        html: it.first_child_html->0,
    }
}

/// The entries of the app items, in order.
pub open spec fn listing_entries(items: Seq<ScrapedItemView>) -> Seq<AppEntryView>
    decreases items.len(),
{
    if items.len() == 0 {
        Seq::empty()
    } else if item_is_app(items.last()) {
        listing_entries(items.drop_last()).push(entry_of(items.last()))
    } else {
        listing_entries(items.drop_last())
    }
}

/// Some item of `items` shows an app.
pub open spec fn has_app(items: Seq<ScrapedItemView>) -> bool {
    exists|i: int| 0 <= i < items.len() && #[trigger] item_is_app(items[i])
}

/// The number of items before the first app item (all items, without one).
pub open spec fn skipped_items(items: Seq<ScrapedItemView>) -> nat
    decreases items.len(),
{
    if items.len() == 0 {
        0
    } else if has_app(items.drop_last()) || item_is_app(items.last()) {
        skipped_items(items.drop_last())
    } else {
        skipped_items(items.drop_last()) + 1
    }
}

/// Every app item is complete.
pub open spec fn apps_complete(items: Seq<ScrapedItemView>) -> bool {
    forall|i: int| 0 <= i < items.len() && #[trigger] item_is_app(items[i]) ==> item_complete(items[i])
}

/// A mockup can be made of a page with these items: every app item is
/// complete, and there are more than three apps.
pub open spec fn mockup_feasible(items: Seq<ScrapedItemView>) -> bool {
    apps_complete(items) && listing_entries(items).len() > 3
}

proof fn lemma_entries_at_most(items: Seq<ScrapedItemView>)
    ensures
        listing_entries(items).len() + skipped_items(items) <= items.len(),
    decreases items.len(),
{
    if items.len() > 0 {
        let d = items.drop_last();
        lemma_entries_at_most(d);
        if !has_app(d) && item_is_app(items.last()) {
            assert(listing_entries(d).len() == 0) by {
                lemma_no_app_no_entries(d);
            }
        }
    }
}

proof fn lemma_no_app_no_entries(items: Seq<ScrapedItemView>)
    requires
        !has_app(items),
    ensures
        listing_entries(items).len() == 0,
    decreases items.len(),
{
    if items.len() > 0 {
        let d = items.drop_last();
        assert(!item_is_app(items[items.len() - 1]));
        assert(!has_app(d)) by {
            if has_app(d) {
                let i = choose|i: int| 0 <= i < d.len() && #[trigger] item_is_app(d[i]);
                assert(items[i] == d[i]);
            }
        }
        lemma_no_app_no_entries(d);
    }
}

fn clone_text(o: &Option<String>) -> (r: Option<String>)
    ensures
        r.deep_view() == o.deep_view(),
{
    match o {
        Some(s) => Some(s.clone()),
        None => None,
    }
}

fn clone_texts(v: &Vec<String>) -> (r: Vec<String>)
    ensures
        r.deep_view() == v.deep_view(),
{
    let mut r: Vec<String> = Vec::new();
    let mut i: usize = 0;
    while i < v.len()
        invariant
            i <= v@.len(),
            r@.len() == i,
            forall|k: int| 0 <= k < i ==> #[trigger] r@[k]@ == v@[k]@,
        decreases v@.len() - i,
    {
        r.push(v[i].clone());
        i = i + 1;
    }
    assert(r.deep_view() =~= v.deep_view());
    r
}

fn text_of(o: &Option<String>) -> (r: String)
    requires
        o is Some,
    ensures
        r@ == o.deep_view()->0,
{
    match o {
        Some(s) => s.clone(),
        None => String::new(),
    }
}

/// The entries of the app items of `items`, in order, and the number of items
/// before the first app item.
pub fn collect_apps(items: &Vec<ScrapedItem>) -> (r: (Vec<AppEntry>, usize))
    requires
        apps_complete(items_view(items@)),
    ensures
        r.0@.map_values(|e: AppEntry| e@) == listing_entries(items_view(items@)),
        r.1 == skipped_items(items_view(items@)),
{
    let ghost all = items_view(items@);
    let mut apps: Vec<AppEntry> = Vec::new();
    let mut skipping = true;
    let mut skip: usize = 0;
    let mut i: usize = 0;
    while i < items.len()
        invariant
            i <= items@.len(),
            all == items_view(items@),
            apps_complete(all),
            apps@.map_values(|e: AppEntry| e@) == listing_entries(all.take(i as int)),
            skip == skipped_items(all.take(i as int)),
            skipping == !has_app(all.take(i as int)),
            skip <= i,
        decreases items@.len() - i,
    {
        let it = &items[i];
        let ghost prefix = all.take(i as int);
        let ghost next = all.take(i + 1 as int);
        assert(next.drop_last() =~= prefix);
        assert(next.last() == all[i as int]);
        assert(all[i as int] == it@);
        if it.screenshots == 1 && it.thumbnails == 1 && it.spans.len() >= 2 && it.links == 1 {
            assert(item_is_app(all[i as int]));
            assert(item_complete(all[i as int]));
            let entry = AppEntry {
                feature: text_of(&it.screenshot_src),
                icon: text_of(&it.thumbnail_src),
                title: it.spans[0].clone(),
                developer: it.spans[1].clone(),
                rating: it.spans[2].clone(),
                link: text_of(&it.link_href),
                html: text_of(&it.first_child_html),
            };
            assert(entry@ == entry_of(it@));
            let ghost before = apps@;
            apps.push(entry);
            assert(apps@.map_values(|e: AppEntry| e@) =~= before.map_values(|e: AppEntry| e@).push(entry@));
            skipping = false;
            assert(has_app(next)) by {
                assert(item_is_app(next[i as int]));
            }
        } else {
            if skipping {
                skip = skip + 1;
            }
            assert(has_app(next) == has_app(prefix)) by {
                if has_app(next) {
                    let k = choose|k: int| 0 <= k < next.len() && #[trigger] item_is_app(next[k]);
                    assert(k != i);
                    assert(prefix[k] == next[k]);
                }
                if has_app(prefix) {
                    let k = choose|k: int| 0 <= k < prefix.len() && #[trigger] item_is_app(prefix[k]);
                    assert(prefix[k] == next[k]);
                }
            }
        }
        i = i + 1;
    }
    assert(all.take(items@.len() as int) =~= all);
    (apps, skip)
}

/// Whether a mockup can be made of a page with the items `items`.
pub fn is_mockup_feasible(items: &Vec<ScrapedItem>) -> (r: bool)
    ensures
        r == mockup_feasible(items_view(items@)),
{
    let ghost all = items_view(items@);
    let mut complete = true;
    let mut apps: usize = 0;
    let mut i: usize = 0;
    while i < items.len()
        invariant
            i <= items@.len(),
            all == items_view(items@),
            complete == apps_complete(all.take(i as int)),
            apps == listing_entries(all.take(i as int)).len(),
            apps <= i,
        decreases items@.len() - i,
    {
        let it = &items[i];
        let ghost prefix = all.take(i as int);
        let ghost next = all.take(i + 1 as int);
        assert(next.drop_last() =~= prefix);
        assert(next.last() == all[i as int]);
        assert(all[i as int] == it@);
        if it.screenshots == 1 && it.thumbnails == 1 && it.spans.len() >= 2 && it.links == 1 {
            let ok = it.screenshot_src.is_some() && it.thumbnail_src.is_some() && it.spans.len() >= 3
                && it.link_href.is_some() && it.first_child_html.is_some();
            assert(ok == item_complete(it@));
            complete = complete && ok;
            apps = apps + 1;
        }
        assert(complete == apps_complete(next)) by {
            if complete && !apps_complete(next) {
                let k = choose|k: int| 0 <= k < next.len() && #[trigger] item_is_app(next[k]) && !item_complete(next[k]);
                if k < i {
                    assert(prefix[k] == next[k]);
                    assert(item_is_app(prefix[k]));
                }
            }
            if !complete && apps_complete(next) {
                assert forall|k: int| 0 <= k < prefix.len() && #[trigger] item_is_app(prefix[k]) implies item_complete(prefix[k]) by {
                    assert(prefix[k] == next[k]);
                    assert(item_is_app(next[k]));
                }
                if item_is_app(next[i as int]) {
                    assert(item_complete(next[i as int]));
                }
            }
        }
        i = i + 1;
    }
    assert(all.take(items@.len() as int) =~= all);
    complete && apps > 3
}

/// The list items of `html` as `scraper` reads them, one entry per item.
pub open spec fn scraped_items(html: Seq<char>) -> Seq<ScrapedItemView> {
    let item = listitem_selector();
    let screenshots = item_match_counts(html, item, screenshot_selector());
    let thumbnails = item_match_counts(html, item, thumbnail_selector());
    let links = item_match_counts(html, item, "a"@);
    let spans = item_inner_htmls(html, item, "span"@);
    let screenshot_src = item_first_attributes(html, item, screenshot_selector(), "src"@);
    let thumbnail_src = item_first_attributes(html, item, thumbnail_selector(), "src"@);
    let link_href = item_first_attributes(html, item, "a"@, "href"@);
    let children = item_first_child_htmls(html, item);
    Seq::new(screenshots.len(), |i: int| ScrapedItemView {
        screenshots: screenshots[i],
        thumbnails: thumbnails[i],
        links: links[i],
        spans: spans[i],
        screenshot_src: screenshot_src[i],
        thumbnail_src: thumbnail_src[i],
        link_href: link_href[i],
        first_child_html: children[i],
    })
}

/// The eight readings of the list items of `html` have one entry per item.
pub open spec fn items_consistent(html: Seq<char>) -> bool {
    let item = listitem_selector();
    let n = item_match_counts(html, item, screenshot_selector()).len();
    &&& item_match_counts(html, item, thumbnail_selector()).len() == n
    &&& item_match_counts(html, item, "a"@).len() == n
    &&& item_inner_htmls(html, item, "span"@).len() == n
    &&& item_first_attributes(html, item, screenshot_selector(), "src"@).len() == n
    &&& item_first_attributes(html, item, thumbnail_selector(), "src"@).len() == n
    &&& item_first_attributes(html, item, "a"@, "href"@).len() == n
    &&& item_first_child_htmls(html, item).len() == n
}

/// `scraper` accepts the selectors with which [`scrape_items`] reads list
/// items.
pub open spec fn scrape_selectors_parse() -> bool {
    &&& scraper_selector_parses(listitem_selector())
    &&& scraper_selector_parses(screenshot_selector())
    &&& scraper_selector_parses(thumbnail_selector())
    &&& scraper_selector_parses("a"@)
    &&& scraper_selector_parses("span"@)
}

/// Reads the list items of the page `html` with `scraper`.
pub fn scrape_items(html: &str) -> (r: Result<Vec<ScrapedItem>, MockupError>)
    ensures
        r is Ok <==> scrape_selectors_parse(),
        scrape_selectors_parse() ==> items_consistent(html@),
        r matches Ok(items) ==> items_view(items@) == scraped_items(html@),
{
    let item = "div[role=\"listitem\"]";
    let screenshots = count_in_items(html, item, "img[alt=\"Screenshot image\"]")?;
    let thumbnails = count_in_items(html, item, "img[alt=\"Thumbnail image\"]")?;
    let links = count_in_items(html, item, "a")?;
    let spans = inner_htmls_in_items(html, item, "span")?;
    let screenshot_src = first_attribute_in_items(html, item, "img[alt=\"Screenshot image\"]", "src")?;
    let thumbnail_src = first_attribute_in_items(html, item, "img[alt=\"Thumbnail image\"]", "src")?;
    let link_href = first_attribute_in_items(html, item, "a", "href")?;
    let children = first_child_html_in_items(html, item)?;
    let n = screenshots.len();
    if thumbnails.len() != n || links.len() != n || spans.len() != n || screenshot_src.len() != n
        || thumbnail_src.len() != n || link_href.len() != n || children.len() != n {
        return Err(MockupError { why: String::from_str("list items read inconsistently") });
    }
    let ghost expected = scraped_items(html@);
    let mut items: Vec<ScrapedItem> = Vec::new();
    let mut i: usize = 0;
    while i < n
        invariant
            i <= n,
            n == screenshots@.len() && n == thumbnails@.len() && n == links@.len() && n == spans@.len(),
            n == screenshot_src@.len() && n == thumbnail_src@.len() && n == link_href@.len() && n == children@.len(),
            expected == scraped_items(html@),
            screenshots@ == item_match_counts(html@, listitem_selector(), screenshot_selector()),
            thumbnails@ == item_match_counts(html@, listitem_selector(), thumbnail_selector()),
            links@ == item_match_counts(html@, listitem_selector(), "a"@),
            spans.deep_view() == item_inner_htmls(html@, listitem_selector(), "span"@),
            screenshot_src.deep_view() == item_first_attributes(html@, listitem_selector(), screenshot_selector(), "src"@),
            thumbnail_src.deep_view() == item_first_attributes(html@, listitem_selector(), thumbnail_selector(), "src"@),
            link_href.deep_view() == item_first_attributes(html@, listitem_selector(), "a"@, "href"@),
            children.deep_view() == item_first_child_htmls(html@, listitem_selector()),
            items@.len() == i,
            forall|k: int| 0 <= k < i ==> #[trigger] items@[k]@ == expected[k],
        decreases n - i,
    {
        let it = ScrapedItem {
            screenshots: screenshots[i],
            thumbnails: thumbnails[i],
            links: links[i],
            spans: clone_texts(&spans[i]),
            screenshot_src: clone_text(&screenshot_src[i]),
            thumbnail_src: clone_text(&thumbnail_src[i]),
            link_href: clone_text(&link_href[i]),
            first_child_html: clone_text(&children[i]),
        };
        assert(spans.deep_view()[i as int] == spans@[i as int].deep_view());
        assert(screenshot_src.deep_view()[i as int] == screenshot_src@[i as int].deep_view());
        assert(thumbnail_src.deep_view()[i as int] == thumbnail_src@[i as int].deep_view());
        assert(link_href.deep_view()[i as int] == link_href@[i as int].deep_view());
        assert(children.deep_view()[i as int] == children@[i as int].deep_view());
        assert(it@ == expected[i as int]);
        items.push(it);
        i = i + 1;
    }
    assert(items_view(items@) =~= expected);
    Ok(items)
}

// ---------------------------------------------------------------------------
// Rewriting the chosen app and placing it
// ---------------------------------------------------------------------------

/// The attribute rules that turn the entry `selected` into the user's `app`:
/// its feature image, its icon and its link.
pub open spec fn attribute_rules(selected: AppEntryView, app: UserAppEntryView) -> Seq<(Seq<char>, Seq<char>, Seq<char>)> {
    seq![
        ("img[src=\""@ + selected.feature + "\"]"@, "src"@, app.feature_link),
        ("img[src=\""@ + selected.icon + "\"]"@, "src"@, app.icon_link),
        ("a[href=\""@ + selected.link + "\"]"@, "href"@, app.app_link),
    ]
}

/// The text swaps that turn the entry `selected` into the user's `app`: title,
/// developer and rating, in that order of precedence.
pub open spec fn text_swaps(selected: AppEntryView, app: UserAppEntryView) -> Seq<(Seq<char>, Seq<char>)> {
    seq![
        (selected.title, app.title),
        (selected.developer, app.developer),
        (selected.rating, app.rating),
    ]
}

proof fn lemma_wrapped_injective(prefix: Seq<char>, a: Seq<char>, b: Seq<char>, suffix: Seq<char>)
    requires
        prefix + a + suffix == prefix + b + suffix,
    ensures
        a == b,
{
    let x = prefix + a + suffix;
    let y = prefix + b + suffix;
    assert(x.len() == (prefix + a).len() + suffix.len());
    assert(y.len() == (prefix + b).len() + suffix.len());
    assert(a.len() == b.len());
    assert(a =~= x.subrange(prefix.len() as int, (prefix.len() + a.len()) as int));
    assert(b =~= y.subrange(prefix.len() as int, (prefix.len() + b.len()) as int));
}

/// Where the user's app goes in the rewritten entry: the image whose source is
/// the entry's feature image gets the user's feature link as its source, the
/// image whose source is the entry's icon gets the user's icon link, and the
/// link to the entry's page gets the user's app link. Each of these elements
/// is rewritten by a rule, and (when the two images differ) by no rule that
/// gives it anything else.
pub proof fn law_rewrite_targets(selected: AppEntryView, app: UserAppEntryView)
    ensures
        exists|i: int| 0 <= i < attribute_rules(selected, app).len()
            && #[trigger] attribute_rules(selected, app)[i] == ("img[src=\""@ + selected.feature + "\"]"@, "src"@, app.feature_link),
        exists|i: int| 0 <= i < attribute_rules(selected, app).len()
            && #[trigger] attribute_rules(selected, app)[i] == ("img[src=\""@ + selected.icon + "\"]"@, "src"@, app.icon_link),
        exists|i: int| 0 <= i < attribute_rules(selected, app).len()
            && #[trigger] attribute_rules(selected, app)[i] == ("a[href=\""@ + selected.link + "\"]"@, "href"@, app.app_link),
        selected.feature != selected.icon ==> forall|i: int| 0 <= i < attribute_rules(selected, app).len()
            && (#[trigger] attribute_rules(selected, app)[i]).0 == "img[src=\""@ + selected.feature + "\"]"@
            ==> attribute_rules(selected, app)[i].2 == app.feature_link,
        selected.feature != selected.icon ==> forall|i: int| 0 <= i < attribute_rules(selected, app).len()
            && (#[trigger] attribute_rules(selected, app)[i]).0 == "img[src=\""@ + selected.icon + "\"]"@
            ==> attribute_rules(selected, app)[i].2 == app.icon_link,
        forall|i: int| 0 <= i < attribute_rules(selected, app).len()
            && (#[trigger] attribute_rules(selected, app)[i]).0 == "a[href=\""@ + selected.link + "\"]"@
            ==> attribute_rules(selected, app)[i].2 == app.app_link,
{
    let rules = attribute_rules(selected, app);
    let feature = "img[src=\""@ + selected.feature + "\"]"@;
    let icon = "img[src=\""@ + selected.icon + "\"]"@;
    let link = "a[href=\""@ + selected.link + "\"]"@;
    reveal_strlit("img[src=\"");
    reveal_strlit("a[href=\"");
    assert(rules[0] == (feature, "src"@, app.feature_link));
    assert(rules[1] == (icon, "src"@, app.icon_link));
    assert(rules[2] == (link, "href"@, app.app_link));
    assert(feature[0] != link[0]);
    assert(icon[0] != link[0]);
    if selected.feature != selected.icon && feature == icon {
        lemma_wrapped_injective("img[src=\""@, selected.feature, selected.icon, "\"]"@);
    }
}

/// Where the user's texts go in the rewritten entry: a text equal to the
/// entry's title becomes the user's title, one equal to its developer the
/// user's developer, and one equal to its rating the user's rating. When the
/// three texts differ, the first swap for each of them is that one.
pub proof fn law_swap_targets(selected: AppEntryView, app: UserAppEntryView)
    ensures
        text_swaps(selected, app).len() == 3,
        exists|i: int| 0 <= i < 3 && #[trigger] text_swaps(selected, app)[i] == (selected.title, app.title),
        exists|i: int| 0 <= i < 3 && #[trigger] text_swaps(selected, app)[i] == (selected.developer, app.developer),
        exists|i: int| 0 <= i < 3 && #[trigger] text_swaps(selected, app)[i] == (selected.rating, app.rating),
        selected.title != selected.developer && selected.title != selected.rating && selected.developer != selected.rating
            ==> forall|i: int| 0 <= i < 3 ==> {
                let (from, to) = #[trigger] text_swaps(selected, app)[i];
                &&& from == selected.title ==> to == app.title
                &&& from == selected.developer ==> to == app.developer
                &&& from == selected.rating ==> to == app.rating
            },
{
    let swaps = text_swaps(selected, app);
    assert(swaps[0] == (selected.title, app.title));
    assert(swaps[1] == (selected.developer, app.developer));
    assert(swaps[2] == (selected.rating, app.rating));
}

/// The rules of [`attribute_rules`] and [`text_swaps`].
pub fn rewrite_rules(selected: &AppEntry, app: &UserAppEntry) -> (r: (Vec<(String, String, String)>, Vec<(String, String)>))
    ensures
        r.0.deep_view() == attribute_rules(selected@, app@),
        r.1.deep_view() == text_swaps(selected@, app@),
{
    let mut rules: Vec<(String, String, String)> = Vec::new();
    rules.push((
        String::from_str("img[src=\"").concat(selected.feature.as_str()).concat("\"]"),
        String::from_str("src"),
        app.feature_link.clone(),
    ));
    rules.push((
        String::from_str("img[src=\"").concat(selected.icon.as_str()).concat("\"]"),
        String::from_str("src"),
        app.icon_link.clone(),
    ));
    rules.push((
        String::from_str("a[href=\"").concat(selected.link.as_str()).concat("\"]"),
        String::from_str("href"),
        app.app_link.clone(),
    ));
    let mut swaps: Vec<(String, String)> = Vec::new();
    swaps.push((selected.title.clone(), app.title.clone()));
    swaps.push((selected.developer.clone(), app.developer.clone()));
    swaps.push((selected.rating.clone(), app.rating.clone()));
    assert(rules.deep_view() =~= attribute_rules(selected@, app@));
    assert(swaps.deep_view() =~= text_swaps(selected@, app@));
    (rules, swaps)
}

/// The HTML of the entry `selected` turned into the user's `app`: its
/// attributes set, then its texts swapped; `None` when `lol_html` fails.
pub open spec fn app_html_rewritten(selected: AppEntryView, app: UserAppEntryView) -> Option<Seq<char>> {
    match attributes_set(selected.html, attribute_rules(selected, app)) {
        Some(with_attributes) => texts_swapped(with_attributes, "span"@, text_swaps(selected, app)),
        None => None,
    }
}

/// The user gave a position among the apps past the first three.
pub open spec fn position_in_range(position: Option<usize>, apps: nat) -> bool {
    position matches Some(p) && 3 <= p < apps
}

/// The list item to replace: the given position, when it lies among the apps
/// past the first three, else the fourth app or a later one picked by
/// `random`; counted among all list items, past the `skip` leading ones.
pub open spec fn replacement_index_for(position: Option<usize>, apps: nat, skip: nat, random: usize) -> int {
    if position_in_range(position, apps) {
        position->0 + skip
    } else {
        3 + (random as int) % (apps - 3) + skip
    }
}

/// The list item to replace, as [`replacement_index_for`] says.
pub fn replacement_index(position: Option<usize>, apps: usize, skip: usize, random: usize) -> (i: usize)
    requires
        apps > 3,
        apps + skip <= usize::MAX,
    ensures
        i == replacement_index_for(position, apps as nat, skip as nat, random),
        skip + 3 <= i < skip + apps,
{
    match position {
        Some(p) => {
            if 3 <= p && p < apps {
                return p + skip;
            }
        },
        None => {},
    }
    3 + random % (apps - 3) + skip
}

/// The list item that a mockup replaces shows an app past the first three:
/// its index, counted among all list items, lies between the fourth app and the
/// last one. With a position among the apps past the first three, it is the
/// item at that position.
pub proof fn law_replaced_item_is_a_later_app(position: Option<usize>, apps: nat, skip: nat, random: usize)
    requires
        apps > 3,
    ensures
        skip + 3 <= replacement_index_for(position, apps, skip, random) < skip + apps,
        position_in_range(position, apps) ==> replacement_index_for(position, apps, skip, random) == position->0 + skip,
{
    let d = (apps - 3) as int;
    assert(0 <= (random as int) % d < d) by (nonlinear_arith)
        requires
            d > 0,
    ;
}

/// Draws a number with `rand::random`. Nothing is claimed of it.
#[verifier::external_body]
fn random_usize() -> usize {
    rand::random::<usize>()
}

/// The page that a mockup of the Play Store page `html` with the user's `app`
/// in the list item `index` is: `None` when the page's list items cannot be
/// read consistently or allow no mockup, or when `lol_html` fails. Else the
/// first app of the page is turned into `app` and put in that list item, and
/// the page gets a ribbon.
pub open spec fn mockup_at(html: Seq<char>, app: UserAppEntryView, index: int) -> Option<Seq<char>> {
    let items = scraped_items(html);
    if !(scrape_selectors_parse() && items_consistent(html) && mockup_feasible(items)) {
        None
    } else {
        match app_html_rewritten(listing_entries(items)[0], app) {
            None => None,
            Some(replacement) => match nth_inner_content_set(html, listitem_selector(), index as usize, replacement) {
                None => None,
                Some(body) => contents_prepended(body, ribbon_rules("Generated by PSV!"@)),
            },
        }
    }
}

/// The page that a mockup of the Play Store page `html` with the user's `app`
/// at `position` is, when `random` is the number drawn: the mockup with the
/// app in the list item that [`replacement_index_for`] picks.
pub open spec fn mockup_with(html: Seq<char>, app: UserAppEntryView, position: Option<usize>, random: usize) -> Option<Seq<char>> {
    let items = scraped_items(html);
    mockup_at(html, app, replacement_index_for(position, listing_entries(items).len(), skipped_items(items), random))
}

/// With a position among the apps past the first three, the number drawn
/// plays no part: the user's app goes in the list item at that position,
/// counted among all list items past the ones before the first app.
pub proof fn law_mockup_at_given_position(html: Seq<char>, app: UserAppEntryView, p: usize, random: usize)
    requires
        position_in_range(Some(p), listing_entries(scraped_items(html)).len()),
    ensures
        mockup_with(html, app, Some(p), random) == mockup_at(html, app, p + skipped_items(scraped_items(html))),
{
}

/// `page` is a mockup of the Play Store page `html` showing the user's `app`
/// at `position`: it is what [`mockup_with`] gives for some random number.
pub open spec fn is_mockup(html: Seq<char>, app: UserAppEntryView, position: Option<usize>, page: Seq<char>) -> bool {
    exists|random: usize| #[trigger] mockup_with(html, app, position, random) == Some(page)
}

/// The mockup of the Play Store page `html` with the user's `app` at
/// `position`, when `random` is the number drawn: exactly what
/// [`mockup_with`] gives. The first app of the page, turned into `app`,
/// replaces the list item at `position` when that lies among the apps past the
/// first three, else the one that `random` picks among them; the page then
/// gets a ribbon.
///
/// Fails when `scraper` or `lol_html` fail, and on pages with an incomplete app
/// item or no more than three apps.
pub fn generate_mockup_with(html: &str, app: &UserAppEntry, position: Option<usize>, random: usize) -> (r: Result<String, MockupError>)
    ensures
        scrape_selectors_parse() ==> items_consistent(html@),
        r is Ok <==> mockup_with(html@, app@, position, random) is Some,
        r matches Ok(page) ==> mockup_with(html@, app@, position, random) == Some(page@),
{
    let items = match scrape_items(html) {
        Ok(items) => items,
        Err(e) => {
            return Err(e);
        },
    };
    if !is_mockup_feasible(&items) {
        return Err(MockupError { why: String::from_str("fewer than four complete apps in the listing") });
    }
    let ghost view = items_view(items@);
    let (apps, skip) = collect_apps(&items);
    proof {
        lemma_entries_at_most(view);
        assert(apps@.map_values(|e: AppEntry| e@)[0] == apps@[0]@);
        assert(apps@.len() == apps@.map_values(|e: AppEntry| e@).len());
        assert(view.len() == items@.len());
        assert(apps@.len() == listing_entries(view).len());
        assert(skip == skipped_items(view));
        assert(apps@.len() + skip <= items@.len());
    }
    let total = items.len();
    assert(apps@.len() + skip <= total);
    let selected = &apps[0];
    let ghost sel = listing_entries(view)[0];
    assert(selected@ == sel);
    let (rules, swaps) = rewrite_rules(selected, app);
    let with_attributes = match set_attributes(selected.html.as_str(), &rules) {
        Ok(s) => s,
        Err(e) => {
            return Err(e);
        },
    };
    let replacement_html = match swap_texts(with_attributes.as_str(), "span", &swaps) {
        Ok(s) => s,
        Err(e) => {
            return Err(e);
        },
    };
    let index = replacement_index(position, apps.len(), skip, random);
    let page = match set_nth_inner_content(html, "div[role=\"listitem\"]", index, replacement_html.as_str()) {
        Ok(p) => p,
        Err(e) => {
            return Err(e);
        },
    };
    insert_ribbon(page, "Generated by PSV!")
}

/// A mockup of the Play Store page `html` in which a list item shows the
/// user's `app`: [`generate_mockup_with`] for a number drawn at random, which
/// matters only when `position` does not lie among the apps past the first
/// three.
pub fn generate_mockup(html: String, app: UserAppEntry, position: Option<usize>) -> (r: Result<String, MockupError>)
    ensures
        r matches Ok(page) ==> is_mockup(html@, app@, position, page@),
        (forall|random: usize| (#[trigger] mockup_with(html@, app@, position, random)) is Some) ==> r is Ok,
        scrape_selectors_parse() ==> items_consistent(html@),
        items_consistent(html@) && !mockup_feasible(scraped_items(html@)) ==> r is Err,
{
    let random = random_usize();
    let r = generate_mockup_with(html.as_str(), &app, position, random);
    assert(r matches Ok(page) ==> mockup_with(html@, app@, position, random) == Some(page@));
    r
}

// ---------------------------------------------------------------------------
// The ribbon
// ---------------------------------------------------------------------------

/// The style of the ribbon.
pub const RIBBON_STYLE: &'static str = r#"
<style>
.ribbon {
    z-index: 1;
    font-size: 28px;
    font-weight: bold;
    color: #1c1c1c;
    position: absolute;
    top: 0;
    right: 0;
    line-height: 1.8;
    padding-inline: 1lh;
    clip-path: polygon(
      100% 100%,0 100%,999px calc(100% - 999px),calc(100% - 999px) calc(100% - 999px));
    transform: translate(calc((1 - cos(45deg))*100%), -100%) rotate(45deg);
    transform-origin: 0% 100%;
    background-color: #C6C6F8; /* the main color  */
  }
</style>"#;

/// The image on the ribbon.
pub const RIBBON_IMAGE: &'static str = r#"<svg viewBox="0 0 100 100" width="28" height="27" xmlns="http://www.w3.org/2000/svg"><path fill-rule="evenodd" clip-rule="evenodd" d="M48.854 0C21.839 0 0 22 0 49.217c0 21.756 13.993 40.172 33.405 46.69 2.427.49 3.316-1.059 3.316-2.362 0-1.141-.08-5.052-.08-9.127-13.59 2.934-16.42-5.867-16.42-5.867-2.184-5.704-5.42-7.17-5.42-7.17-4.448-3.015.324-3.015.324-3.015 4.934.326 7.523 5.052 7.523 5.052 4.367 7.496 11.404 5.378 14.235 4.074.404-3.178 1.699-5.378 3.074-6.6-10.839-1.141-22.243-5.378-22.243-24.283 0-5.378 1.94-9.778 5.014-13.2-.485-1.222-2.184-6.275.486-13.038 0 0 4.125-1.304 13.426 5.052a46.97 46.97 0 0 1 12.214-1.63c4.125 0 8.33.571 12.213 1.63 9.302-6.356 13.427-5.052 13.427-5.052 2.67 6.763.97 11.816.485 13.038 3.155 3.422 5.015 7.822 5.015 13.2 0 18.905-11.404 23.06-22.324 24.283 1.78 1.548 3.316 4.481 3.316 9.126 0 6.6-.08 11.897-.08 13.526 0 1.304.89 2.853 3.316 2.364 19.412-6.52 33.405-24.935 33.405-46.691C97.707 22 75.788 0 48.854 0z" fill="\#24292f"/></svg>"#;

/// The rules that put a ribbon reading `text` on a page: the ribbon's style at
/// the start of the `head`, and the ribbon, a link to the project, at the start
/// of the banner header.
pub open spec fn ribbon_rules(text: Seq<char>) -> Seq<(Seq<char>, Seq<char>)> {
    seq![
        ("head"@, RIBBON_STYLE@),
        (
            "header[role=\"banner\"]"@,
            "<a href=\"https://github.com/JerboaBurrow/PlayStoreVisualiser\"><div class=\"ribbon\">"@ + text
                + RIBBON_IMAGE@ + "</div></a>"@,
        ),
    ]
}

/// The page `html` with a ribbon reading `text`. Fails when `lol_html` fails.
pub fn insert_ribbon(html: String, text: &str) -> (r: Result<String, MockupError>)
    ensures
        r is Ok <==> contents_prepended(html@, ribbon_rules(text@)) is Some,
        r matches Ok(page) ==> contents_prepended(html@, ribbon_rules(text@)) == Some(page@),
{
    let mut rules: Vec<(String, String)> = Vec::new();
    rules.push((String::from_str("head"), String::from_str(RIBBON_STYLE)));
    let ribbon = String::from_str("<a href=\"https://github.com/JerboaBurrow/PlayStoreVisualiser\"><div class=\"ribbon\">")
        .concat(text)
        .concat(RIBBON_IMAGE)
        .concat("</div></a>");
    rules.push((String::from_str("header[role=\"banner\"]"), ribbon));
    assert(rules.deep_view() =~= ribbon_rules(text@));
    prepend_contents(html.as_str(), &rules)
}

} // verus!
