//! The request for the current weather of a city.
//!
//! The city and the key are percent-encoded into the request, so that each
//! stands as one value of the query whatever characters it holds. The parser
//! decides whether that text is a URL.

use crate::percent::{encoded, lemma_encoded_is_injective, lemma_encoded_is_safe, push_encoded};
use vstd::prelude::*;

verus! {

/// The provider's address for current weather, up to the city.
pub open spec fn endpoint() -> Seq<char> {
    "https://api.openweathermap.org/data/2.5/weather?q="@
}

/// What stands between the city and the key.
pub open spec fn key_parameter() -> Seq<char> {
    "&appid="@
}

/// The request for `city` with `api_key`: the query names the city as `q`
/// and the key as `appid`, each percent-encoded.
pub open spec fn request_text(city: Seq<char>, api_key: Seq<char>) -> Seq<char> {
    endpoint() + encoded(city) + key_parameter() + encoded(api_key)
}

/// Writes the request for `city` with `api_key`. Both are percent-encoded as
/// they are given: nothing is trimmed from either, so a key that ends in a
/// line feed is sent with that line feed, as `%0A`.
pub fn write_request(city: &str, api_key: &str) -> (text: String)
    ensures
        text@ == request_text(city@, api_key@),
{
    let mut text = String::from_str("https://api.openweathermap.org/data/2.5/weather?q=");
    push_encoded(&mut text, city);
    text.append("&appid=");
    push_encoded(&mut text, api_key);
    text
}

/// A request names one city and one key: no character of either can end its
/// value, add a parameter or rename one, so two requests are the same text
/// only where they are for the same city with the same key.
pub proof fn lemma_request_names_city_and_key(
    city: Seq<char>,
    api_key: Seq<char>,
    other_city: Seq<char>,
    other_key: Seq<char>,
)
    requires
        request_text(city, api_key) == request_text(other_city, other_key),
    ensures
        city == other_city,
        api_key == other_key,
{
    reveal_strlit("&appid=");
    lemma_encoded_is_safe(city);
    lemma_encoded_is_safe(other_city);
    let front = endpoint().len() as int;
    let a = encoded(city);
    let b = encoded(other_city);
    let left = request_text(city, api_key);
    let right = request_text(other_city, other_key);
    if a.len() < b.len() {
        assert(left[front + a.len()] == key_parameter()[0]);
    } else if b.len() < a.len() {
        assert(right[front + b.len()] == key_parameter()[0]);
    }
    assert(a == left.subrange(front, front + a.len()));
    assert(b == right.subrange(front, front + b.len()));
    let rest = front + a.len() + key_parameter().len();
    assert(encoded(api_key) == left.skip(rest));
    assert(encoded(other_key) == right.skip(rest));
    lemma_encoded_is_injective(city, other_city);
    lemma_encoded_is_injective(api_key, other_key);
}

/// Whether `text` is parsed as an absolute URL.
pub uninterp spec fn parses_as_url(text: Seq<char>) -> bool;

/// Calls `reqwest::Url::parse`, which is `url::Url::parse`, and tells whether
/// it gave a URL or an error.
///
/// Believed of the parser, not proved: its outcome depends on `text` alone.
/// Which texts it accepts is left to it.
#[verifier::external_body]
fn is_url(text: &str) -> (accepted: bool)
    ensures
        accepted == parses_as_url(text@),
{
    reqwest::Url::parse(text).is_ok()
}

/// A request that is no well-formed URL.
#[derive(Clone, Copy, Debug, PartialEq, Eq, Structural)]
pub struct MalformedUrl;

/// Accepts a request by the outcome of parsing it: the request itself where
/// it was parsed as a URL, an error where it was not.
pub fn checked(request: String, well_formed: bool) -> (r: Result<String, MalformedUrl>)
    ensures
        match r {
            Ok(url) => well_formed && url == request,
            Err(_) => !well_formed,
        },
{
    if well_formed {
        Ok(request)
    } else {
        Err(MalformedUrl)
    }
}

/// The URL to fetch for the current weather of `city`: the request for `city`
/// with `api_key`, both percent-encoded, or an error where the parser does
/// not take that request for a URL.
pub fn request_url(city: &str, api_key: &str) -> (r: Result<String, MalformedUrl>)
    ensures
        match r {
            Ok(url) => {
                &&& url@ == request_text(city@, api_key@)
                &&& parses_as_url(request_text(city@, api_key@))
            },
            Err(_) => !parses_as_url(request_text(city@, api_key@)),
        },
{
    let text = write_request(city, api_key);
    let well_formed = is_url(text.as_str());
    checked(text, well_formed)
}

} // verus!
