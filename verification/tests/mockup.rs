use psv::generate::{
    classify_listing, collect_apps, generate_mockup, generate_mockup_with, insert_ribbon, page_type, replacement_index, scrape_items,
    ItemCounts, MockupError, PageType,
};
use psv::model::{AppEntry, UserAppEntry};
use psv::server::api::Generate;
use psv::server::config::{Config, ThrottleConfig};
use psv::server::throttle::Rate;
use psv::server::StatusCode;

fn app_item(n: usize) -> String {
    format!(
        "<div role=\"listitem\"><div class=\"card\"><a href=\"/store/apps/details?id=app{n}\">\
<div><img src=\"https://feature/{n}.jpg\" alt=\"Screenshot image\"></div>\
<div><img src=\"https://icon/{n}.png\" alt=\"Thumbnail image\">\
<div><span>Title {n}</span></div><div><span>Developer {n}</span></div><div><span>4.{n}</span></div></div>\
</a></div></div>"
    )
}

fn video_item() -> String {
    "<div role=\"listitem\"><div><button>Play</button><img src=\"https://video.jpg\" alt=\"Video\"></div></div>".to_string()
}

fn screenshots_item() -> String {
    "<div role=\"listitem\"><div><img src=\"s1\" alt=\"Screenshot image\"><img src=\"s2\" alt=\"Screenshot image\"></div></div>"
        .to_string()
}

fn page(items: &[String]) -> String {
    format!(
        "<!DOCTYPE html><html><head><title>Play</title></head><body><header role=\"banner\"><div>Play Store</div></header><div>{}</div></body></html>",
        items.concat()
    )
}

fn user_app() -> UserAppEntry {
    UserAppEntry::new("FEATURE", "ICON", "TITLE", "DEVELOPER", "RATING", "APP_LINK")
}

fn count(haystack: &str, needle: &str) -> usize {
    haystack.matches(needle).count()
}

#[test]
fn list_page_is_a_list() {
    let html = page(&(0..6).map(app_item).collect::<Vec<_>>());
    assert_eq!(page_type(&html).unwrap(), PageType::List);
}

#[test]
fn video_page_is_a_hero() {
    let mut items = vec![video_item()];
    items.extend((0..5).map(app_item));
    assert_eq!(page_type(&page(&items)).unwrap(), PageType::Hero);
}

#[test]
fn screenshot_page_is_a_hero() {
    let mut items = vec![screenshots_item()];
    items.extend((0..5).map(app_item));
    assert_eq!(page_type(&page(&items)).unwrap(), PageType::Hero);
}

#[test]
fn classification_of_counts() {
    let app = ItemCounts { screenshots: 1, thumbnails: 1, spans: 3, links: 1, images: 2, buttons: 0 };
    let video = ItemCounts { screenshots: 0, thumbnails: 0, spans: 0, links: 0, images: 1, buttons: 1 };
    let shots = ItemCounts { screenshots: 3, thumbnails: 0, spans: 0, links: 0, images: 3, buttons: 0 };
    let plain = ItemCounts { screenshots: 0, thumbnails: 0, spans: 1, links: 0, images: 0, buttons: 0 };
    assert_eq!(classify_listing(&vec![]), PageType::List);
    assert_eq!(classify_listing(&vec![app, app, plain]), PageType::List);
    assert_eq!(classify_listing(&vec![video, app]), PageType::Hero);
    assert_eq!(classify_listing(&vec![app, shots]), PageType::Hero);
}

#[test]
fn apps_and_skipped_items_are_collected() {
    let mut items = vec![video_item(), screenshots_item()];
    items.extend((0..4).map(app_item));
    items.push(video_item());
    let html = page(&items);
    let scraped = scrape_items(&html).unwrap();
    assert_eq!(scraped.len(), 7);
    let (apps, skip) = collect_apps(&scraped);
    assert_eq!(skip, 2);
    assert_eq!(apps.len(), 4);
    let first: &AppEntry = &apps[0];
    assert_eq!(first.feature, "https://feature/0.jpg");
    assert_eq!(first.icon, "https://icon/0.png");
    assert_eq!(first.title, "Title 0");
    assert_eq!(first.developer, "Developer 0");
    assert_eq!(first.rating, "4.0");
    assert_eq!(first.link, "/store/apps/details?id=app0");
    assert!(first.html.starts_with("<div class=\"card\">"));
}

#[test]
fn replacement_index_uses_position_in_range() {
    assert_eq!(replacement_index(Some(3), 5, 0, 0), 3);
    assert_eq!(replacement_index(Some(4), 5, 2, 99), 6);
    // out of range: the fourth app or a later one, by the random number
    assert_eq!(replacement_index(Some(5), 5, 0, 0), 3);
    assert_eq!(replacement_index(Some(0), 5, 1, 1), 5);
    assert_eq!(replacement_index(None, 6, 0, 7), 4);
    for r in 0..20usize {
        let i = replacement_index(None, 7, 3, r);
        assert!(6 <= i && i < 10);
    }
}

#[test]
fn mockup_replaces_the_given_position() {
    let html = page(&(0..6).map(app_item).collect::<Vec<_>>());
    let generated = generate_mockup(html, user_app(), Some(3)).unwrap();
    // the fourth item now shows the user's app
    assert!(!generated.contains("Title 3"));
    assert!(generated.contains("Title 0"));
    assert!(generated.contains("Title 4"));
    assert_eq!(count(&generated, ">TITLE<"), 1);
    assert_eq!(count(&generated, ">DEVELOPER<"), 1);
    assert_eq!(count(&generated, ">RATING<"), 1);
    assert_eq!(count(&generated, "src=\"FEATURE\""), 1);
    assert_eq!(count(&generated, "src=\"ICON\""), 1);
    assert_eq!(count(&generated, "href=\"APP_LINK\""), 1);
    // and the page carries the ribbon
    assert!(generated.contains("Generated by PSV!"));
    assert!(generated.contains(".ribbon {"));
}

#[test]
fn mockup_with_random_position_keeps_first_three() {
    let html = page(&(0..6).map(app_item).collect::<Vec<_>>());
    let generated = generate_mockup(html, user_app(), None).unwrap();
    assert!(generated.contains("Title 0") && generated.contains("Title 1") && generated.contains("Title 2"));
    assert_eq!(count(&generated, ">TITLE<"), 1);
}

#[test]
fn mockup_needs_more_than_three_apps() {
    let html = page(&(0..3).map(app_item).collect::<Vec<_>>());
    assert!(generate_mockup(html, user_app(), Some(3)).is_err());
    let empty = page(&[]);
    assert!(generate_mockup(empty, user_app(), None).is_err());
}

#[test]
fn ribbon_is_inserted() {
    let html = "<html><head><title>t</title></head><body><header role=\"banner\"><p>x</p></header></body></html>".to_string();
    let out = insert_ribbon(html, "Hello").unwrap();
    assert!(out.contains("<head><style>") || out.contains("<head>\n<style>"));
    assert!(out.contains("<header role=\"banner\"><a href=\"https://github.com/JerboaBurrow/PlayStoreVisualiser\"><div class=\"ribbon\">Hello<svg"));
    assert!(out.ends_with("</div></a><p>x</p></header></body></html>"));
}

#[test]
fn mockup_error_message() {
    let e = MockupError { why: "no apps".to_string() };
    assert_eq!(e.message(), "no apps while mocking up content");
    assert_eq!(e.clone().why, "no apps");
}

#[test]
fn app_entries_are_made() {
    let e = AppEntry::new();
    assert!(e.feature.is_empty() && e.icon.is_empty() && e.title.is_empty() && e.html.is_empty());
    let u = user_app();
    assert_eq!(u.feature_link, "FEATURE");
    assert_eq!(u.app_link, "APP_LINK");
    let c = u.clone();
    assert_eq!(c.title, "TITLE");
}

fn config() -> Config {
    Config {
        port_https: 443,
        port_http: 80,
        cert_path: "cert.pem".to_string(),
        key_path: "key.pem".to_string(),
        domain: "example.com".to_string(),
        throttle: ThrottleConfig {
            max_requests_per_second: Rate { requests: 64, seconds: 1 },
            timeout_millis: 5000,
            clear_period_seconds: 3600,
        },
        api_token: None,
        cache_period_seconds: 120,
        cors_allow_address: Some("https://example.org".to_string()),
    }
}

#[test]
fn generate_request_defaults() {
    let g = Generate::new();
    assert_eq!(g.search_query(), "particles");
    assert_eq!(g.search_url(), "https://play.google.com/store/search?q=particles&c=apps");
    assert_eq!(g.position(), 0);
    let p = g.payload();
    assert_eq!(p.app.title, "TITLE");
    assert_eq!(p.app.rating, "STARS");
    assert_eq!(p.app.app_link, "LINK");
}

#[test]
fn generate_request_takes_payload() {
    let mut g = Generate::new();
    assert_eq!(g.deserialise_payload(None), StatusCode::BAD_REQUEST);
    assert_eq!(g.search_query(), "particles");
    let payload = psv::server::api::GeneratePayload { app: user_app(), query: Some("block".to_string()), position: Some(4) };
    assert_eq!(g.deserialise_payload(Some(payload)), StatusCode::OK);
    assert_eq!(g.search_url(), "https://play.google.com/store/search?q=block&c=apps");
    assert_eq!(g.position(), 4);
    let payload = psv::server::api::GeneratePayload { app: user_app(), query: None, position: None };
    assert_eq!(g.deserialise_payload(Some(payload)), StatusCode::OK);
    assert_eq!(g.search_query(), "particles");
    assert_eq!(g.position(), 0);
}

#[test]
fn generate_request_responds_with_mockup() {
    let mut g = Generate::new();
    let payload = psv::server::api::GeneratePayload { app: user_app(), query: None, position: Some(4) };
    g.deserialise_payload(Some(payload));
    let html = page(&(0..6).map(app_item).collect::<Vec<_>>());
    let out = g.respond(html).unwrap();
    assert!(!out.contains("Title 4"));
    assert!(out.contains("Title 3"));
}

#[test]
fn generate_response_headers() {
    let c = config();
    let h = Generate::response_headers_at(&c, "2024-01-01T00:00:00+00:00");
    assert_eq!(
        h,
        vec![
            ("date".to_string(), "2024-01-01T00:00:00+00:00".to_string()),
            ("cache-control".to_string(), "public, max-age=120".to_string()),
            ("Access-Control-Allow-Origin".to_string(), "https://example.org".to_string()),
            ("Access-Control-Allow-Methods".to_string(), "POST".to_string()),
        ]
    );
    let now = Generate::response_headers(&c);
    assert_eq!(now.len(), 4);
    assert_eq!(now[0].0, "date");
}

#[test]
fn mockup_fails_on_unselectable_image_source() {
    // the first app's feature url cannot stand in a CSS attribute selector
    let mut items = vec![app_item(0).replace("https://feature/0.jpg", "https://feature/&quot;0.jpg")];
    items.extend((1..6).map(app_item));
    let html = page(&items);
    let scraped = scrape_items(&html).unwrap();
    assert_eq!(scraped.len(), 6);
    assert!(generate_mockup(html, user_app(), Some(3)).is_err());
}

#[test]
fn pages_without_items_are_read() {
    let html = String::from("<html><head></head><body><p>nothing listed</p></body></html>");
    assert_eq!(page_type(&html).unwrap(), PageType::List);
    assert!(scrape_items(&html).unwrap().is_empty());
    assert!(generate_mockup(html, user_app(), None).is_err());
}

#[test]
fn drawn_number_picks_the_item() {
    let html = page(&(0..6).map(app_item).collect::<Vec<_>>());
    // three apps past the first three: the draw picks among items 3, 4, 5
    let a = generate_mockup_with(&html, &user_app(), None, 1).unwrap();
    assert!(!a.contains("Title 4") && a.contains("Title 3") && a.contains("Title 5"));
    let b = generate_mockup_with(&html, &user_app(), None, 5).unwrap();
    assert!(!b.contains("Title 5") && b.contains("Title 3") && b.contains("Title 4"));
    // the same draw gives the same page
    assert_eq!(generate_mockup_with(&html, &user_app(), None, 1).unwrap(), a);
    // a position among the later apps wins over the draw
    let c = generate_mockup_with(&html, &user_app(), Some(3), 1).unwrap();
    assert!(!c.contains("Title 3") && c.contains("Title 4"));
    assert_eq!(c, generate_mockup(html, user_app(), Some(3)).unwrap());
}
