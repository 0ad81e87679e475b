use wolfram_terminal::encode::url_encode;
use wolfram_terminal::request::{
    answer_line, build_get, build_path, build_request, format_result, RequestError, HOST, PORT,
};

#[test]
fn endpoint_is_plain_http() {
    assert_eq!(HOST, "api.wolframalpha.com");
    assert_eq!(PORT, 80);
}

#[test]
fn path_carries_encoded_query_and_identifier() {
    assert_eq!(build_path("2%2B2", "ABC-123"), "/v2/query?input=2%2B2&appid=ABC-123");
}

#[test]
fn get_request_is_framed() {
    assert_eq!(
        build_get("/v2/query?input=x&appid=k", "example.org"),
        "GET /v2/query?input=x&appid=k HTTP/1.1\r\nHost: example.org\r\nConnection: close\r\n\r\n"
    );
}

#[test]
fn request_encodes_the_query() {
    let r = build_request("2+2\n", Some("KEY")).unwrap();
    assert_eq!(
        r,
        "GET /v2/query?input=2%2B2%0A&appid=KEY HTTP/1.1\r\nHost: api.wolframalpha.com\r\nConnection: close\r\n\r\n"
    );
}

#[test]
fn missing_credential_gives_no_request() {
    assert_eq!(build_request("2+2", None), Err(RequestError::MissingCredential));
}

#[test]
fn result_line_prefixes_answer() {
    assert_eq!(format_result("4"), "Result: 4");
    assert_eq!(format_result("No result found."), "Result: No result found.");
}

#[test]
fn end_to_end_two_plus_two() {
    assert_eq!(url_encode("2+2"), "2%2B2");
    let request = build_request("2+2", Some("KEY")).unwrap();
    assert!(request.starts_with("GET /v2/query?input=2%2B2&appid=KEY HTTP/1.1\r\n"));
    let response = "HTTP/1.1 200 OK\r\nContent-Type: text/xml\r\n\r\n\
                    <queryresult><pod title='Result'><plaintext>4</plaintext></pod></queryresult>";
    assert_eq!(answer_line(response), "Result: 4");
}

#[test]
fn answer_line_without_result() {
    assert_eq!(answer_line("<queryresult success='false'/>"), "Result: No result found.");
}
