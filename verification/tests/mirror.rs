use mirror_client::mirror::{
    mirror_response_from_fetch, parse_mirror_response, MirrorError, ParseError, SeleniumRelease,
    MIRROR_URL,
};

fn parse_ok(body: &str) -> Vec<SeleniumRelease> {
    match parse_mirror_response(body) {
        Ok(v) => v,
        Err(_) => panic!("expected a successful parse of {:?}", body),
    }
}

#[test]
fn well_formed_manifest_matches_input_in_order() {
    let body = "[\n  {\"tag_name\": \"selenium-4.10.0\", \"assets\": [\n    {\"browser_download_url\": \"https://host.invalid/a.zip\"},\n    {\"browser_download_url\": \"https://host.invalid/b.zip\"}\n  ]},\n  {\"assets\": [{\"browser_download_url\": \"https://host.invalid/c.zip\"}],\n   \"tag_name\": \"selenium-4.9.0\"}\n]\n";
    let got = parse_ok(body);
    assert_eq!(got.len(), 2);
    assert_eq!(got[0].tag_name, "selenium-4.10.0");
    assert_eq!(got[0].assets.len(), 2);
    assert_eq!(got[0].assets[0].browser_download_url, "https://host.invalid/a.zip");
    assert_eq!(got[0].assets[1].browser_download_url, "https://host.invalid/b.zip");
    assert_eq!(got[1].tag_name, "selenium-4.9.0");
    assert_eq!(got[1].assets.len(), 1);
    assert_eq!(got[1].assets[0].browser_download_url, "https://host.invalid/c.zip");
}

#[test]
fn unknown_members_are_skipped() {
    let body = "[{\"id\": 123456, \"draft\": false, \"notes\": null, \"checksums\": [1, 2.5, -3e2, \"abc\"], \"meta\": {\"nested\": {\"deep\": [true, {}]}}, \"tag_name\": \"v1\", \"assets\": [{\"name\": \"a\", \"browser_download_url\": \"u1\", \"size\": 0}]}]";
    let got = parse_ok(body);
    assert_eq!(got.len(), 1);
    assert_eq!(got[0].tag_name, "v1");
    assert_eq!(got[0].assets.len(), 1);
    assert_eq!(got[0].assets[0].browser_download_url, "u1");
}

#[test]
fn string_escapes_are_decoded() {
    let body = "[{\"tag_name\": \"a\\tb\\u0041\\\"q\\\\\\/\\ud83d\\ude00\", \"assets\": []}]";
    let got = parse_ok(body);
    assert_eq!(got[0].tag_name, "a\tbA\"q\\/\u{1F600}");
}

#[test]
fn escaped_key_is_the_same_key() {
    let body = "[{\"tag\\u005fname\": \"v1\", \"assets\": []}]";
    let got = parse_ok(body);
    assert_eq!(got[0].tag_name, "v1");
}

#[test]
fn empty_array_gives_empty_list() {
    assert_eq!(parse_ok("[]").len(), 0);
    assert_eq!(parse_ok(" \t\r\n [ ] \n").len(), 0);
}

#[test]
fn empty_asset_list_still_deserializes() {
    let got = parse_ok("[{\"tag_name\": \"v1\", \"assets\": []}]");
    assert_eq!(got.len(), 1);
    assert_eq!(got[0].tag_name, "v1");
    assert_eq!(got[0].assets.len(), 0);
}

#[test]
fn missing_tag_is_an_error() {
    let body = "[{\"assets\": [{\"browser_download_url\": \"u\"}]}]";
    assert_eq!(parse_mirror_response(body), Err(ParseError));
}

#[test]
fn missing_assets_is_an_error() {
    assert_eq!(parse_mirror_response("[{\"tag_name\": \"v1\"}]"), Err(ParseError));
}

#[test]
fn missing_download_url_is_an_error() {
    let body = "[{\"tag_name\": \"v1\", \"assets\": [{\"name\": \"a\"}]}]";
    assert_eq!(parse_mirror_response(body), Err(ParseError));
}

#[test]
fn empty_release_object_is_an_error() {
    assert_eq!(parse_mirror_response("[{}]"), Err(ParseError));
}

#[test]
fn duplicate_member_is_an_error() {
    let body = "[{\"tag_name\": \"v1\", \"tag_name\": \"v2\", \"assets\": []}]";
    assert!(parse_mirror_response(body).is_err());
}

#[test]
fn wrongly_typed_members_are_an_error() {
    assert!(parse_mirror_response("[{\"tag_name\": 5, \"assets\": []}]").is_err());
    assert!(parse_mirror_response("[{\"tag_name\": \"v\", \"assets\": null}]").is_err());
    assert!(parse_mirror_response("[{\"tag_name\": \"v\", \"assets\": [\"u\"]}]").is_err());
}

#[test]
fn non_json_text_is_an_error() {
    assert!(parse_mirror_response("").is_err());
    assert!(parse_mirror_response("mirror down for maintenance").is_err());
    assert!(parse_mirror_response("<html></html>").is_err());
}

#[test]
fn truncated_json_is_an_error() {
    assert!(parse_mirror_response("[{\"tag_name\": \"v1\", \"assets\": [").is_err());
    assert!(parse_mirror_response("[{\"tag_name\": \"v1\"").is_err());
    assert!(parse_mirror_response("[").is_err());
}

#[test]
fn top_level_object_is_an_error() {
    assert!(parse_mirror_response("{\"tag_name\": \"v1\", \"assets\": []}").is_err());
}

#[test]
fn trailing_text_is_an_error() {
    assert!(parse_mirror_response("[] []").is_err());
    assert!(parse_mirror_response("[]x").is_err());
}

#[test]
fn trailing_comma_is_an_error() {
    assert!(parse_mirror_response("[{\"tag_name\": \"v\", \"assets\": []},]").is_err());
    assert!(parse_mirror_response("[{\"tag_name\": \"v\", \"assets\": [],}]").is_err());
}

#[test]
fn malformed_escapes_are_an_error() {
    assert!(parse_mirror_response("[{\"tag_name\": \"\\x\", \"assets\": []}]").is_err());
    assert!(parse_mirror_response("[{\"tag_name\": \"\\u12\", \"assets\": []}]").is_err());
    // a lone surrogate names no character
    assert!(parse_mirror_response("[{\"tag_name\": \"\\ud800\", \"assets\": []}]").is_err());
    assert!(parse_mirror_response("[{\"tag_name\": \"\\udc00\", \"assets\": []}]").is_err());
}

#[test]
fn raw_control_character_in_string_is_an_error() {
    assert!(parse_mirror_response("[{\"tag_name\": \"a\nb\", \"assets\": []}]").is_err());
}

#[test]
fn malformed_numbers_in_skipped_members_are_an_error() {
    assert!(parse_mirror_response("[{\"n\": 01, \"tag_name\": \"v\", \"assets\": []}]").is_err());
    assert!(parse_mirror_response("[{\"n\": 1., \"tag_name\": \"v\", \"assets\": []}]").is_err());
    assert!(parse_mirror_response("[{\"n\": +1, \"tag_name\": \"v\", \"assets\": []}]").is_err());
    assert!(parse_mirror_response("[{\"n\": 1e, \"tag_name\": \"v\", \"assets\": []}]").is_err());
}

#[test]
fn well_formed_numbers_in_skipped_members_pass() {
    let body =
        "[{\"a\": 0, \"b\": -0.5, \"c\": 12e-3, \"d\": 9.25E+2, \"tag_name\": \"v\", \"assets\": []}]";
    assert_eq!(parse_ok(body)[0].tag_name, "v");
}

#[test]
fn transport_failure_propagates_without_parsing() {
    let failing_stub: Result<String, String> = Err(String::from("connection refused"));
    assert_eq!(
        mirror_response_from_fetch(failing_stub),
        Err(MirrorError::Transport(String::from("connection refused")))
    );
}

#[test]
fn fetched_body_is_parsed() {
    let ok_stub: Result<String, String> =
        Ok(String::from("[{\"tag_name\": \"v1\", \"assets\": []}]"));
    let got = mirror_response_from_fetch(ok_stub).unwrap();
    assert_eq!(got.len(), 1);
    assert_eq!(got[0].tag_name, "v1");

    let bad_stub: Result<String, String> = Ok(String::from("not json"));
    assert_eq!(mirror_response_from_fetch(bad_stub), Err(MirrorError::Decode(ParseError)));
}

#[test]
fn mirror_url_names_the_fixed_endpoint() {
    assert_eq!(
        MIRROR_URL,
        "https://raw.githubusercontent.com/SeleniumHQ/selenium/trunk/common/mirror/selenium"
    );
}
