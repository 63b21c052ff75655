use geolibre_desktop::json::{parse_json, Json};
use geolibre_desktop::urls::{
    body_read, check_fetched_url, check_resolved_url, check_status, get_answered,
    has_xyz_placeholders, head_answered, http_url, is_success_code, resolved_url_from_body,
    resolved_url_from_json, ResolveStep,
};

#[test]
fn placeholders_are_found_in_any_case_and_form() {
    assert!(has_xyz_placeholders("https://t/{z}/{x}/{y}.png"));
    assert!(has_xyz_placeholders("https://t/{Z}/{X}/{Y}.png"));
    assert!(has_xyz_placeholders("https://t/%7Bz%7D/%7bX%7d/{y}"));
    assert!(!has_xyz_placeholders("https://t/{z}/{x}"));
    assert!(!has_xyz_placeholders("https://t/z/x/y"));
    assert!(!has_xyz_placeholders(""));
}

#[test]
fn only_http_addresses_are_addresses() {
    assert_eq!(http_url("https://a").as_deref(), Some("https://a"));
    assert_eq!(http_url("http://a").as_deref(), Some("http://a"));
    assert_eq!(http_url("ftp://a"), None);
    assert_eq!(http_url("HTTPS://a"), None);
    assert_eq!(check_fetched_url("http://a"), Ok(()));
    assert_eq!(
        check_fetched_url("file:///a"),
        Err("Only HTTP and HTTPS URLs can be fetched".to_string())
    );
    assert_eq!(check_resolved_url("https://a"), Ok(()));
    assert_eq!(
        check_resolved_url("a"),
        Err("Only HTTP and HTTPS URLs can be resolved".to_string())
    );
}

#[test]
fn success_is_two_hundred_and_some() {
    for code in 100..600u16 {
        assert_eq!(
            is_success_code(code),
            reqwest::StatusCode::from_u16(code).unwrap().is_success()
        );
    }
    assert_eq!(check_status(204, "204 No Content", "Request failed"), Ok(()));
    assert_eq!(
        check_status(404, "404 Not Found", "Request failed"),
        Err("Request failed with status 404 Not Found".to_string())
    );
}

#[test]
fn bodies_name_addresses() {
    assert_eq!(resolved_url_from_body(" https://a/b \n").as_deref(), Some("https://a/b"));
    assert_eq!(resolved_url_from_body("\"http://a\"").as_deref(), Some("http://a"));
    assert_eq!(resolved_url_from_body("\"ftp://a\""), None);
    assert_eq!(
        resolved_url_from_body("{\"tile_url\":\"http://c\",\"tileUrl\":\"http://b\"}").as_deref(),
        Some("http://b")
    );
    assert_eq!(
        resolved_url_from_body("{\"url\":\"x\",\"tile_url\":\"http://c\"}").as_deref(),
        Some("http://c")
    );
    assert_eq!(
        resolved_url_from_body("{\"tiles\":[\"https://t/{z}\",\"https://u\"]}").as_deref(),
        Some("https://t/{z}")
    );
    assert_eq!(resolved_url_from_body("{\"tiles\":[7,\"https://u\"]}"), None);
    assert_eq!(resolved_url_from_body("{\"tiles\":[]}"), None);
    assert_eq!(resolved_url_from_body("{\"tiles\":\"https://u\"}"), None);
    assert_eq!(resolved_url_from_body("[\"https://u\"]"), None);
    assert_eq!(resolved_url_from_body("not json"), None);
    assert_eq!(resolved_url_from_body(""), None);
}

#[test]
fn documents_are_read_as_trees() {
    let document = parse_json("{\"a\":[null,true,1.5,\"t\",{\"b\":\"c\"}]}").unwrap();
    let list = document.member("a").unwrap().as_list().unwrap();
    assert_eq!(list.len(), 5);
    assert!(matches!(list[0], Json::Other));
    assert!(matches!(list[2], Json::Other));
    assert_eq!(list[3].as_text().map(|text| text.as_str()), Some("t"));
    assert_eq!(
        list[4].member("b").and_then(|field| field.as_text()).map(|text| text.as_str()),
        Some("c")
    );
    assert!(document.member("x").is_none());
    assert!(list[3].member("b").is_none());
    assert!(parse_json("{").is_none());
    let url = Json::Object(vec![("url".into(), Json::Text("https://a".into()))]);
    assert_eq!(resolved_url_from_json(&url).as_deref(), Some("https://a"));
    assert_eq!(resolved_url_from_json(&Json::Other), None);
}

#[test]
fn resolving_goes_from_head_to_body() {
    let tiles = "https://t/{z}/{x}/{y}";
    assert!(matches!(head_answered(Some(tiles.into())), ResolveStep::Resolved(url) if url == tiles));
    assert!(matches!(head_answered(Some("https://a".into())), ResolveStep::Get));
    assert!(matches!(head_answered(None), ResolveStep::Get));
    assert!(matches!(get_answered(Ok(tiles.into())), ResolveStep::Resolved(url) if url == tiles));
    assert!(matches!(get_answered(Ok("https://a".into())), ResolveStep::ReadBody));
    assert!(matches!(
        get_answered(Err("timeout".into())),
        ResolveStep::Failed(message) if message == "Request failed: timeout"
    ));
    assert!(matches!(
        body_read(Ok(" http://b ".into())),
        ResolveStep::Resolved(url) if url == "http://b"
    ));
    assert!(matches!(
        body_read(Ok("{}".into())),
        ResolveStep::Failed(message) if message == "Could not resolve URL"
    ));
    assert!(matches!(
        body_read(Err("cut".into())),
        ResolveStep::Failed(message) if message == "Could not read response body: cut"
    ));
}
