use wolfram_terminal::extract::parse_response;

#[test]
fn extracts_plaintext_of_result_pod() {
    let r = "<queryresult><pod title='Result' scanner='Simplification'><subpod title=''>\
             <plaintext>42</plaintext></subpod></pod></queryresult>";
    assert_eq!(parse_response(r), "42");
}

#[test]
fn trims_white_space_around_answer() {
    let r = "<pod title='Result'><plaintext>\n   42 \t\r\n</plaintext>";
    assert_eq!(parse_response(r), "42");
    let r = "<pod title='Result'><plaintext>\u{a0}x = 3\u{3000}</plaintext>";
    assert_eq!(parse_response(r), "x = 3");
}

#[test]
fn missing_marker_gives_not_found() {
    let r = "<pod title='Input'><plaintext>2+2</plaintext></pod>";
    assert_eq!(parse_response(r), "No result found.");
    assert_eq!(parse_response(""), "No result found.");
}

#[test]
fn missing_closing_tag_gives_not_found() {
    let r = "<pod title='Result'><plaintext>42";
    assert_eq!(parse_response(r), "No result found.");
}

#[test]
fn missing_opening_tag_gives_not_found() {
    let r = "<pod title='Result'>42</plaintext>";
    assert_eq!(parse_response(r), "No result found.");
}

#[test]
fn closing_tag_before_opening_tag_gives_not_found() {
    let r = "<pod title='Result'></plaintext><plaintext>42";
    assert_eq!(parse_response(r), "No result found.");
}

#[test]
fn tags_before_the_marker_are_ignored() {
    let r = "<pod title='Input'><plaintext>2+2</plaintext></pod>\
             <pod title='Result'><plaintext>4</plaintext></pod>";
    assert_eq!(parse_response(r), "4");
}

#[test]
fn first_result_pod_and_first_field_win() {
    let r = "<pod title='Result'><plaintext>a</plaintext><plaintext>b</plaintext></pod>\
             <pod title='Result'><plaintext>c</plaintext></pod>";
    assert_eq!(parse_response(r), "a");
}

#[test]
fn empty_field_gives_empty_answer() {
    let r = "<pod title='Result'><plaintext>  </plaintext>";
    assert_eq!(parse_response(r), "");
}

#[test]
fn non_ascii_answer_is_kept() {
    let r = "<pod title='Result'><plaintext> π ≈ 3.14159 </plaintext>";
    assert_eq!(parse_response(r), "π ≈ 3.14159");
}

#[test]
fn repeated_extraction_gives_equal_answers() {
    let r = String::from("<pod title='Result'><plaintext>7</plaintext>");
    let copy = r.clone();
    assert_eq!(parse_response(&r), parse_response(&r));
    assert_eq!(parse_response(&r), parse_response(&copy));
    let none = "no pods here";
    assert_eq!(parse_response(none), parse_response(none));
}
