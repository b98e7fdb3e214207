//! What each request is answered with: the payload on the configured path,
//! a small "not found" page on any other.
use crate::cache::{counters_from, stale, step, wf, AppState};
use crate::config::{str_eq, Config, ConfigView};
use crate::metrics::{render, Rates};
use crate::text::{decimal, push_decimal};
use vstd::prelude::*;

verus! {

/// A response: status code, `Content-Type` and `Server` header values, body.
pub struct Reply {
    pub status: u16,
    pub content_type: String,
    pub server: String,
    pub body: String,
}

/// Whether `needle` occurs in `hay`.
pub open spec fn contains(hay: Seq<char>, needle: Seq<char>) -> bool {
    exists|i: int|
        0 <= i && i + needle.len() <= hay.len() && #[trigger] hay.subrange(i, i + needle.len())
            == needle
}

pub open spec fn server_name() -> Seq<char> {
    "rainmeter-remote-simple-metric-server"@
}

pub open spec fn plain_text() -> Seq<char> {
    "text/plain; charset=utf-8"@
}

pub open spec fn html_text() -> Seq<char> {
    "text/html; charset=utf-8"@
}

/// The page for a request to `url`, which the server does not have.
pub open spec fn not_found_page(url: Seq<char>, c: ConfigView) -> Seq<char> {
    not_found_head() + url + " was not found on this server.</p>\n<p>please visit "@ + c.path
        + "  <p>\n                <hr>\n<address>rainmeter-remote-simple-metric-server Server at "@
        + c.host + " Port "@ + decimal(c.port as nat) + "</address>\n</body></html>"@
}

pub open spec fn not_found_head() -> Seq<char> {
    "<!DOCTYPE HTML PUBLIC \"-//IETF//DTD HTML 2.0//EN\">\n<html><head>\n<title>404 Not Found</title>\n</head><body>\n<h1>Not Found</h1>\n<p>The requested URL "@
}

fn server_header() -> (r: String)
    ensures
        r@ == server_name(),
{
    String::from_str("rainmeter-remote-simple-metric-server")
}

/// The answer on the configured path: the payload `text`.
pub fn stats_reply(text: String) -> (r: Reply)
    ensures
        r.status == 200,
        r.content_type@ == plain_text(),
        r.server@ == server_name(),
        r.body == text,
{
    Reply {
        status: 200,
        content_type: String::from_str("text/plain; charset=utf-8"),
        server: server_header(),
        body: text,
    }
}

/// The answer on any other path: a page naming `url`.
pub fn not_found_reply(url: &str, c: &Config) -> (r: Reply)
    ensures
        r.status == 404,
        r.content_type@ == html_text(),
        r.server@ == server_name(),
        r.body@ == not_found_page(url@, c@),
        contains(r.body@, url@),
{
    let mut b = String::from_str("<!DOCTYPE HTML PUBLIC \"-//IETF//DTD HTML 2.0//EN\">\n<html><head>\n<title>404 Not Found</title>\n</head><body>\n<h1>Not Found</h1>\n<p>The requested URL ");
    let ghost head = b@;
    b.append(url);
    let ghost with_url = b@;
    b.append(" was not found on this server.</p>\n<p>please visit ");
    b.append(c.path.as_str());
    b.append("  <p>\n                <hr>\n<address>rainmeter-remote-simple-metric-server Server at ");
    b.append(c.host.as_str());
    b.append(" Port ");
    push_decimal(&mut b, c.port as u128);
    b.append("</address>\n</body></html>");
    assert(b@ =~= not_found_page(url@, c@));
    assert(b@.subrange(head.len() as int, head.len() + url@.len() as int) =~= url@);
    Reply {
        status: 404,
        content_type: String::from_str("text/html; charset=utf-8"),
        server: server_header(),
        body: b,
    }
}

/// Answers a request to `url` at time `now`. Only a request to the
/// configured path consults the cache, and it answers with the payload that
/// the cache serves at `now`, always a rendering of the seven lines.
pub fn handle(url: &str, c: &Config, state: &mut AppState, now: u64) -> (r: Reply)
    requires
        wf(old(state)@),
    ensures
        wf(final(state)@),
        r.server@ == server_name(),
        url@ == c@.path ==> {
            &&& r.status == 200
            &&& r.content_type@ == plain_text()
            &&& (final(state)@, r.body@) == step(old(state)@, now, final(state)@.last)
            &&& exists|rates: Rates| r.body@ == #[trigger] render(final(state)@.last, rates)
            &&& !stale(old(state)@, now) ==> final(state).probe_spec() == old(state).probe_spec()
            &&& stale(old(state)@, now) ==> {
                &&& final(state).probe_spec().read_count() == old(state).probe_spec().read_count() + 1
                &&& counters_from(final(state).probe_spec(), final(state)@.last)
            }
        },
        url@ != c@.path ==> {
            &&& r.status == 404
            &&& r.content_type@ == html_text()
            &&& r.body@ == not_found_page(url@, c@)
            &&& contains(r.body@, url@)
            &&& final(state)@ == old(state)@
            &&& final(state).probe_spec() == old(state).probe_spec()
        },
{
    if str_eq(url, c.path.as_str()) {
        stats_reply(state.get_data(now))
    } else {
        not_found_reply(url, c)
    }
}

} // verus!
