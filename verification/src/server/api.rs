//! The server's POST api: the `Generate` request, which answers with a mockup.
use vstd::prelude::*;
use vstd::string::*;
use vstd::utf8::{decode_utf8, encode_utf8, valid_utf8};

use crate::generate::{generate_mockup, is_mockup, items_consistent, mockup_feasible, mockup_with, scrape_selectors_parse, scraped_items, MockupError};
use crate::model::{UserAppEntry, UserAppEntryView};
use crate::server::config::Config;
use crate::server::{authentication_settled, digest_of_length, is_authentic, regex_compiles, sender_digest, StatusCode};
use crate::text::{decimal, decimal_string};

verus! {

/// Payload for [Generate] Api request
///  - `app`: the app to show in the mockup
///  - `query`: the Play Store search to take the page from
///  - `position`: which list item the app replaces
#[derive(Debug)]
pub struct GeneratePayload {
    pub app: UserAppEntry,
    pub query: Option<String>,
    pub position: Option<usize>,
}

/// The Generate api request: makes a mockup of a Play Store search page with
/// the payload's app in it. See [GeneratePayload].
pub struct Generate {
    payload: GeneratePayload,
}

/// Where a request goes, as far as the api is concerned.
#[derive(Debug, Clone, Copy, PartialEq, Eq, Structural)]
pub enum ApiRoute {
    /// Not an api request: serve it as usual.
    PassThrough,
    /// Fail the request with this status.
    Fail(StatusCode),
    /// A `Generate` request.
    Generate,
}

/// What the filter of api requests learnt at its last step.
#[derive(Debug, Clone, Copy, PartialEq, Eq, Structural)]
pub enum FilterEvent {
    /// The request was routed by its `api` header (see [`route_api_request`]).
    Routed(ApiRoute),
    /// The request body was read whole (`true`) or could not be (`false`).
    BodyRead(bool),
    /// The signature was checked, with this answer.
    Authenticated(StatusCode),
    /// The payload was taken from the body, with this answer.
    PayloadRead(StatusCode),
    /// The mockup was made (`true`) or not (`false`), with this status.
    Responded(bool, StatusCode),
}

/// What the filter of api requests does next.
#[derive(Debug, Clone, Copy, PartialEq, Eq, Structural)]
pub enum FilterAction {
    /// Hand the request on to be served as usual.
    PassThrough,
    /// Fail the request with this status.
    Fail(StatusCode),
    /// Answer the request with this status and no page.
    Answer(StatusCode),
    /// Read the request body.
    ReadBody,
    /// Check the request's signature.
    Authenticate,
    /// Take the payload from the body.
    ReadPayload,
    /// Make the mockup.
    Respond,
    /// Send the mockup, with the response headers.
    SendPage,
}

/// The order of the filter's steps: route the request by its `api` header,
/// read its body, authenticate it, take its payload, make the mockup and send
/// it. A request that is no api request is passed on; a failed route, an
/// unreadable body and a failed mockup fail the request; a refused signature
/// or payload is answered with its status.
pub open spec fn filter_next_spec(event: FilterEvent) -> FilterAction {
    match event {
        FilterEvent::Routed(ApiRoute::PassThrough) => FilterAction::PassThrough,
        FilterEvent::Routed(ApiRoute::Fail(s)) => FilterAction::Fail(s),
        FilterEvent::Routed(ApiRoute::Generate) => FilterAction::ReadBody,
        FilterEvent::BodyRead(ok) => if ok { FilterAction::Authenticate } else { FilterAction::Fail(StatusCode::BAD_REQUEST) },
        FilterEvent::Authenticated(s) => if s == StatusCode::ACCEPTED { FilterAction::ReadPayload } else { FilterAction::Answer(s) },
        FilterEvent::PayloadRead(s) => if s == StatusCode::OK { FilterAction::Respond } else { FilterAction::Answer(s) },
        FilterEvent::Responded(made, s) => if made { FilterAction::SendPage } else { FilterAction::Fail(s) },
    }
}

/// The filter's next step after `event`, as [`filter_next_spec`] says.
pub fn filter_next(event: &FilterEvent) -> (a: FilterAction)
    ensures
        a == filter_next_spec(*event),
{
    match event {
        FilterEvent::Routed(ApiRoute::PassThrough) => FilterAction::PassThrough,
        FilterEvent::Routed(ApiRoute::Fail(s)) => FilterAction::Fail(*s),
        FilterEvent::Routed(ApiRoute::Generate) => FilterAction::ReadBody,
        FilterEvent::BodyRead(ok) => if *ok { FilterAction::Authenticate } else { FilterAction::Fail(StatusCode::BAD_REQUEST) },
        FilterEvent::Authenticated(s) => {
            if *s == StatusCode::ACCEPTED { FilterAction::ReadPayload } else { FilterAction::Answer(*s) }
        },
        FilterEvent::PayloadRead(s) => {
            if *s == StatusCode::OK { FilterAction::Respond } else { FilterAction::Answer(*s) }
        },
        FilterEvent::Responded(made, s) => if *made { FilterAction::SendPage } else { FilterAction::Fail(*s) },
    }
}

/// A mockup is sent only for a request that went through every step: routed
/// as `Generate`, its body read, its signature accepted and its payload read.
/// Each of those steps leads to the next one and to nothing else.
pub proof fn law_filter_steps_in_order(route: ApiRoute, s: StatusCode)
    ensures
        filter_next_spec(FilterEvent::Routed(route)) == FilterAction::ReadBody <==> route == ApiRoute::Generate,
        filter_next_spec(FilterEvent::BodyRead(true)) == FilterAction::Authenticate,
        filter_next_spec(FilterEvent::Authenticated(s)) == FilterAction::ReadPayload <==> s == StatusCode::ACCEPTED,
        filter_next_spec(FilterEvent::PayloadRead(s)) == FilterAction::Respond <==> s == StatusCode::OK,
        filter_next_spec(FilterEvent::Responded(true, s)) == FilterAction::SendPage,
{
}

/// The name that the `api` header gives the `Generate` request.
pub open spec fn generate_api_name() -> Seq<char> {
    "Generate"@
}

/// Routes a request by its `api` header: without one it is no api request;
/// with one, the configuration must be readable, and the header must read
/// `Generate` in UTF-8 for the request to be a `Generate` request.
pub fn route_api_request(api_header: Option<&[u8]>, config_loaded: bool) -> (r: ApiRoute)
    ensures
        api_header is None ==> r == ApiRoute::PassThrough,
        api_header is Some && !config_loaded ==> r == ApiRoute::Fail(StatusCode::INTERNAL_SERVER_ERROR),
        api_header matches Some(h) ==> (config_loaded ==> (r == (if valid_utf8(h@) && decode_utf8(h@) == generate_api_name() {
            ApiRoute::Generate
        } else {
            ApiRoute::PassThrough
        }))),
{
    let h = match api_header {
        Some(h) => h,
        None => {
            return ApiRoute::PassThrough;
        },
    };
    if !config_loaded {
        return ApiRoute::Fail(StatusCode::INTERNAL_SERVER_ERROR);
    }
    match core::str::from_utf8(h) {
        Ok(api) => {
            if crate::text::same_text(api, "Generate") {
                ApiRoute::Generate
            } else {
                ApiRoute::PassThrough
            }
        },
        Err(_) => ApiRoute::PassThrough,
    }
}

/// The search that a `Generate` request takes its page from when its payload
/// names none.
pub open spec fn default_query() -> Seq<char> {
    "particles"@
}

/// The Play Store search url for `query`.
pub open spec fn search_url_for(query: Seq<char>) -> Seq<char> {
    "https://play.google.com/store/search?q="@ + query + "&c=apps"@
}

/// The Play Store search url for `query`.
pub fn search_url(query: &str) -> (u: String)
    ensures
        u@ == search_url_for(query@),
{
    String::from_str("https://play.google.com/store/search?q=").concat(query).concat("&c=apps")
}

/// What the response to a `Generate` request carries besides the mockup: the
/// date, how long it may be cached, and, with a configured origin, the headers
/// that allow cross-origin POST requests from it.
pub open spec fn generate_headers(timestamp: Seq<char>, cache_period_seconds: u16, cors: Option<Seq<char>>) -> Seq<(Seq<char>, Seq<char>)> {
    let base = seq![
        ("date"@, timestamp),
        ("cache-control"@, "public, max-age="@ + decimal(cache_period_seconds as nat)),
    ];
    match cors {
        Some(a) => base + seq![("Access-Control-Allow-Origin"@, a), ("Access-Control-Allow-Methods"@, "POST"@)],
        None => base,
    }
}

/// The headers of a `Generate` response always start with the date and the
/// cache period; a configured origin adds the two cross-origin headers after
/// them, and nothing else changes.
pub proof fn law_generate_headers(timestamp: Seq<char>, cache_period_seconds: u16, origin: Seq<char>)
    ensures
        generate_headers(timestamp, cache_period_seconds, None) == seq![
            ("date"@, timestamp),
            ("cache-control"@, "public, max-age="@ + decimal(cache_period_seconds as nat)),
        ],
        generate_headers(timestamp, cache_period_seconds, Some(origin)).len() == 4,
        generate_headers(timestamp, cache_period_seconds, Some(origin)).take(2)
            == generate_headers(timestamp, cache_period_seconds, None),
        generate_headers(timestamp, cache_period_seconds, Some(origin))[2] == ("Access-Control-Allow-Origin"@, origin),
        generate_headers(timestamp, cache_period_seconds, Some(origin))[3] == ("Access-Control-Allow-Methods"@, "POST"@),
{
    let with = generate_headers(timestamp, cache_period_seconds, Some(origin));
    assert(with.take(2) =~= generate_headers(timestamp, cache_period_seconds, None));
}

/// The current time in RFC 3339 form, from `chrono::Utc::now` and
/// `DateTime::to_rfc3339`. It depends on the time of the call; nothing is
/// claimed of it.
#[verifier::external_body]
fn utc_now_rfc3339() -> String {
    chrono::offset::Utc::now().to_rfc3339()
}

impl Generate {
    /// The payload of the request.
    pub closed spec fn payload_view(&self) -> (UserAppEntryView, Option<Seq<char>>, Option<usize>) {
        (self.payload.app@, self.payload.query.deep_view(), self.payload.position)
    }

    /// A `Generate` request with the default payload: a placeholder app, the
    /// search "particles", position 0.
    pub fn new() -> (g: Generate)
        ensures
            g.payload_view().0 == (UserAppEntryView {
                feature_link: "FEATURE"@,
                icon_link: "ICON"@,
                title: "TITLE"@,
                developer: "DEVELOPER"@,
                rating: "STARS"@,
                app_link: "LINK"@,
            }),
            g.payload_view().1 == Some("particles"@),
            g.payload_view().2 == Some(0usize),
    {
        Generate {
            payload: GeneratePayload {
                app: UserAppEntry::new("FEATURE", "ICON", "TITLE", "DEVELOPER", "STARS", "LINK"),
                query: Some(String::from_str("particles")),
                position: Some(0),
            },
        }
    }

    /// The payload of the request.
    pub fn payload(&self) -> (p: &GeneratePayload)
        ensures
            (p.app@, p.query.deep_view(), p.position) == self.payload_view(),
    {
        &self.payload
    }

    /// Takes the payload read from the request body: `OK` and the payload when
    /// the body could be read as one, `BAD_REQUEST` and the payload unchanged
    /// otherwise.
    pub fn deserialise_payload(&mut self, parsed: Option<GeneratePayload>) -> (s: StatusCode)
        ensures
            parsed matches Some(p) ==> s == StatusCode::OK && final(self).payload_view() == (p.app@, p.query.deep_view(), p.position),
            parsed is None ==> s == StatusCode::BAD_REQUEST && final(self).payload_view() == old(self).payload_view(),
    {
        match parsed {
            Some(p) => {
                self.payload = p;
                StatusCode::OK
            },
            None => StatusCode::BAD_REQUEST,
        }
    }

    /// Checks a request's signature against the token of the configuration:
    /// `INTERNAL_SERVER_ERROR` without a configuration, `ACCEPTED` when no token
    /// is configured, and otherwise what [`is_authentic`] answers for the
    /// `psv-token` header. `None` where checking cannot complete (see
    /// [`is_authentic`]).
    pub fn is_authentic(config: Option<&Config>, signature: Option<&[u8]>, body: &[u8]) -> (r: Option<StatusCode>)
        ensures
            config is None ==> r == Some(StatusCode::INTERNAL_SERVER_ERROR),
            config matches Some(c) ==> (c.api_token is None ==> r == Some(StatusCode::ACCEPTED)),
            config matches Some(c) ==> (c.api_token matches Some(t) ==> (signature is None ==> r == Some(StatusCode::UNAUTHORIZED))),
            config matches Some(c) ==> (c.api_token matches Some(t) ==> (signature matches Some(sig) ==> (!valid_utf8(sig@) ==> r == Some(StatusCode::BAD_REQUEST)))),
            config matches Some(c) ==> (c.api_token matches Some(t) ==> (signature matches Some(sig) ==> (valid_utf8(sig@)
                && encode_utf8(t@).len() > i32::MAX ==> r is None))),
            config matches Some(c) ==> (c.api_token matches Some(t) ==> (signature matches Some(sig) ==> (valid_utf8(sig@)
                && encode_utf8(t@).len() <= i32::MAX ==> authentication_settled(decode_utf8(sig@), encode_utf8(t@), body@, r)))),
            config matches Some(c) ==> (c.api_token matches Some(t) ==> (signature matches Some(sig) ==> (valid_utf8(sig@)
                && encode_utf8(t@).len() <= i32::MAX && regex_compiles("sha256="@)
                && digest_of_length(sender_digest(decode_utf8(sig@)), 32) ==> r is Some))),
    {
        let c = match config {
            Some(c) => c,
            None => {
                return Some(StatusCode::INTERNAL_SERVER_ERROR);
            },
        };
        match &c.api_token {
            Some(t) => is_authentic(signature, t.as_str(), body),
            None => Some(StatusCode::ACCEPTED),
        }
    }

    /// The search of the payload, "particles" when it names none.
    pub fn search_query(&self) -> (q: String)
        ensures
            q@ == (match self.payload_view().1 {
                Some(q) => q,
                None => default_query(),
            }),
    {
        match &self.payload.query {
            Some(q) => q.clone(),
            None => String::from_str("particles"),
        }
    }

    /// The Play Store search url that the request takes its page from.
    pub fn search_url(&self) -> (u: String)
        ensures
            u@ == search_url_for(match self.payload_view().1 {
                Some(q) => q,
                None => default_query(),
            }),
    {
        let q = self.search_query();
        search_url(q.as_str())
    }

    /// The position of the payload, 0 when it names none.
    pub open spec fn position_spec(&self) -> usize {
        match self.payload_view().2 {
            Some(p) => p,
            None => 0,
        }
    }

    /// The position of the payload, 0 when it names none.
    pub fn position(&self) -> (p: usize)
        ensures
            p == self.position_spec(),
    {
        match self.payload.position {
            Some(p) => p,
            None => 0,
        }
    }

    /// The mockup that answers the request, made from the fetched search page
    /// `html`: [`generate_mockup`] with the payload's app and position.
    pub fn respond(&self, html: String) -> (r: Result<String, MockupError>)
        ensures
            r matches Ok(page) ==> is_mockup(html@, self.payload_view().0, Some(self.position_spec()), page@),
            (forall|random: usize| (#[trigger] mockup_with(html@, self.payload_view().0, Some(self.position_spec()), random)) is Some) ==> r is Ok,
            scrape_selectors_parse() ==> items_consistent(html@),
            items_consistent(html@) && !mockup_feasible(scraped_items(html@)) ==> r is Err,
    {
        let app = self.payload.app.clone();
        let position = self.position();
        assert(app@ == self.payload_view().0);
        generate_mockup(html, app, Some(position))
    }

    /// The headers of the response to a `Generate` request made at `timestamp`.
    pub fn response_headers_at(config: &Config, timestamp: &str) -> (h: Vec<(String, String)>)
        ensures
            h.deep_view() == generate_headers(timestamp@, config.cache_period_seconds, config.cors_allow_address.deep_view()),
    {
        let mut headers: Vec<(String, String)> = Vec::new();
        headers.push((String::from_str("date"), String::from_str(timestamp)));
        let age = decimal_string(config.cache_period_seconds as u64);
        headers.push((String::from_str("cache-control"), String::from_str("public, max-age=").concat(age.as_str())));
        match &config.cors_allow_address {
            Some(a) => {
                headers.push((String::from_str("Access-Control-Allow-Origin"), a.clone()));
                headers.push((String::from_str("Access-Control-Allow-Methods"), String::from_str("POST")));
            },
            None => {},
        }
        assert(headers.deep_view() =~= generate_headers(timestamp@, config.cache_period_seconds, config.cors_allow_address.deep_view()));
        headers
    }

    /// The headers of the response to a `Generate` request made now.
    pub fn response_headers(config: &Config) -> (h: Vec<(String, String)>)
        ensures
            exists|timestamp: Seq<char>| h.deep_view() == generate_headers(timestamp, config.cache_period_seconds, config.cors_allow_address.deep_view()),
    {
        let now = utc_now_rfc3339();
        Self::response_headers_at(config, now.as_str())
    }
}

} // verus!
