//! The HTTP request that carries a query to the service, and the line that
//! shows its answer.
use vstd::prelude::*;
use vstd::string::StringExecFns;
use vstd::string::StringSliceAdditionalSpecFns;
use crate::encode::encode_bytes;
use crate::encode::url_encode;
use crate::extract::extract;
use crate::extract::parse_response;

verus! {

/// The host that answers queries.
pub const HOST: &'static str = "api.wolframalpha.com";

/// The port of the plain HTTP endpoint.
pub const PORT: u16 = 80;

/// Why no request could be built.
#[derive(Debug, Clone, Copy, PartialEq, Eq)]
pub enum RequestError {
    /// The application identifier is not configured.
    MissingCredential,
}

/// The path, with its query string, that asks for `encoded` on behalf of
/// `app_id`.
pub open spec fn query_path(encoded: Seq<char>, app_id: Seq<char>) -> Seq<char> {
    "/v2/query?input="@ + encoded + "&appid="@ + app_id
}

/// A GET request for `path` on `host` that asks the peer to close the
/// connection once it has answered.
pub open spec fn get_request(path: Seq<char>, host: Seq<char>) -> Seq<char> {
    "GET "@ + path + " HTTP/1.1\r\nHost: "@ + host + "\r\nConnection: close\r\n\r\n"@
}

/// The request that sends `query`, percent-encoded, with `app_id`.
pub open spec fn query_request(query: Seq<u8>, app_id: Seq<char>) -> Seq<char> {
    get_request(query_path(encode_bytes(query), app_id), HOST@)
}

/// The line that shows an answer.
pub open spec fn result_line(answer: Seq<char>) -> Seq<char> {
    "Result: "@ + answer
}

/// Builds the path that asks for the already encoded query `encoded`.
pub fn build_path(encoded: &str, app_id: &str) -> (r: String)
    ensures
        r@ == query_path(encoded@, app_id@),
{
    let mut r = String::from_str("/v2/query?input=");
    r.append(encoded);
    r.append("&appid=");
    r.append(app_id);
    r
}

/// Frames the GET request for `path` on `host`.
pub fn build_get(path: &str, host: &str) -> (r: String)
    ensures
        r@ == get_request(path@, host@),
{
    let mut r = String::from_str("GET ");
    r.append(path);
    r.append(" HTTP/1.1\r\nHost: ");
    r.append(host);
    r.append("\r\nConnection: close\r\n\r\n");
    r
}

/// The request text that asks the service about `query`. Without an
/// application identifier there is no request: the caller has nothing to send.
pub fn build_request(query: &str, app_id: Option<&str>) -> (r: Result<String, RequestError>)
    ensures
        match app_id {
            None => r == Err::<String, RequestError>(RequestError::MissingCredential),
            Some(id) => r matches Ok(t) && t@ == query_request(query.spec_bytes(), id@),
        },
{
    match app_id {
        None => Err(RequestError::MissingCredential),
        Some(id) => {
            let encoded = url_encode(query);
            let path = build_path(encoded.as_str(), id);
            Ok(build_get(path.as_str(), HOST))
        },
    }
}

/// The line printed for `answer`.
pub fn format_result(answer: &str) -> (r: String)
    ensures
        r@ == result_line(answer@),
{
    let mut r = String::from_str("Result: ");
    r.append(answer);
    r
}

/// The line printed for the service's reply `response`: its answer, or the
/// not-found message.
pub fn answer_line(response: &str) -> (r: String)
    ensures
        r@ == result_line(extract(response@)),
{
    let answer = parse_response(response);
    format_result(answer.as_str())
}

} // verus!
