use ferropress::http::{
    extension_of, resource_location, route, HttpContentType, HttpHeader, HttpStatus, Request,
    Response, Route,
};
use ferropress::text::{chars_of, push_decimal, push_signed_decimal, same_text, string_of};
use ferropress::Settings;

#[test]
fn content_type_follows_the_extension() {
    assert_eq!(HttpContentType::from_str("html"), HttpContentType::Html);
    assert_eq!(HttpContentType::from_str("css"), HttpContentType::Css);
    assert_eq!(HttpContentType::from_str("jpeg"), HttpContentType::Jpeg);
    assert_eq!(HttpContentType::from_str("png"), HttpContentType::Png);
    assert_eq!(HttpContentType::from_str("ico"), HttpContentType::Icon);
    assert_eq!(HttpContentType::from_str("jpg"), HttpContentType::Html);
    assert_eq!(HttpContentType::from_str("HTML"), HttpContentType::Html);
    assert_eq!(HttpContentType::from_str(""), HttpContentType::Html);
}

#[test]
fn content_type_names_its_media_type() {
    assert_eq!(HttpContentType::Html.to_text(), "text/html");
    assert_eq!(HttpContentType::Css.to_text(), "text/css");
    assert_eq!(HttpContentType::Jpeg.to_text(), "image/jpeg");
    assert_eq!(HttpContentType::Png.to_text(), "image/png");
    assert_eq!(HttpContentType::Icon.to_text(), "image/x-icon");
}

#[test]
fn header_is_name_colon_value() {
    assert_eq!(HttpHeader::ContentType(HttpContentType::Css).to_text(), "Content-Type: text/css");
    assert_eq!(HttpHeader::ContentLength(1204).to_text(), "Content-Length: 1204");
    assert_eq!(HttpHeader::ContentLength(0).to_text(), "Content-Length: 0");
    assert_eq!(HttpHeader::ContentLength(-7).to_text(), "Content-Length: -7");
}

#[test]
fn status_has_its_reason_phrase() {
    assert_eq!(HttpStatus::HttpOk(200).to_text(), "200 OK");
    assert_eq!(HttpStatus::HttpOk(201).to_text(), "201 Created");
    assert_eq!(HttpStatus::HttpOk(204).to_text(), "204 No Content");
    assert_eq!(HttpStatus::HttpOk(206).to_text(), "206 OK");
    assert_eq!(HttpStatus::HttpErr(400).to_text(), "400 Bad Request");
    assert_eq!(HttpStatus::HttpErr(404).to_text(), "404 Not Found");
    assert_eq!(HttpStatus::HttpErr(500).to_text(), "500 Internal Server Error");
    assert_eq!(HttpStatus::HttpErr(503).to_text(), "503 Unknown Error");
    assert_eq!(HttpStatus::HttpErr(200).to_text(), "200 Unknown Error");
}

#[test]
fn response_is_head_then_body() {
    let response = Response {
        status: HttpStatus::HttpOk(200),
        contents: b"<p>hi</p>".to_vec(),
        headers: Some(vec![
            HttpHeader::ContentType(HttpContentType::Html),
            HttpHeader::ContentLength(99),
        ]),
    };
    assert_eq!(
        response.fmt_as_bytes(),
        b"HTTP/1.1 200 OK\r\nContent-Type: text/html\r\nContent-Length: 9\r\n\r\n<p>hi</p>".to_vec()
    );
    assert_eq!(
        response.head_text(),
        "HTTP/1.1 200 OK\r\nContent-Type: text/html\r\nContent-Length: 9\r\n\r\n"
    );
}

#[test]
fn response_without_headers_still_states_its_length() {
    let response =
        Response { status: HttpStatus::HttpErr(404), contents: vec![0xff, 0x00], headers: None };
    let mut expected = b"HTTP/1.1 404 Not Found\r\nContent-Length: 2\r\n\r\n".to_vec();
    expected.push(0xff);
    expected.push(0x00);
    assert_eq!(response.fmt_as_bytes(), expected);
}

#[test]
fn request_line_is_the_first_three_words() {
    let request = Request::parse("GET /index.html HTTP/1.1\r\nHost: example\r\n\r\n").unwrap();
    assert_eq!(request.method, "GET");
    assert_eq!(request.path, "/index.html");
    assert_eq!(request.version, "HTTP/1.1");
    let padded = Request::parse("  \tPOST\n\n/ \u{a0}v \0\0").unwrap();
    assert_eq!(padded.method, "POST");
    assert_eq!(padded.path, "/");
    assert_eq!(padded.version, "v");
    let exact = Request::parse("a b c").unwrap();
    assert_eq!(exact.version, "c");
}

#[test]
fn fewer_than_three_words_are_no_request() {
    assert!(Request::parse("").is_none());
    assert!(Request::parse("   ").is_none());
    assert!(Request::parse("GET").is_none());
    assert!(Request::parse("GET /  ").is_none());
}

#[test]
fn extension_is_what_follows_the_last_full_stop() {
    assert_eq!(extension_of("/a/b.tar.gz"), "gz");
    assert_eq!(extension_of("/favicon.ico"), "ico");
    assert_eq!(extension_of("/plain"), "/plain");
    assert_eq!(extension_of("/dot."), "");
    assert_eq!(extension_of(""), "");
}

#[test]
fn media_and_other_files_live_apart() {
    assert_eq!(
        resource_location("/favicon.ico"),
        ("./media/favicon.ico".to_string(), HttpContentType::Icon)
    );
    assert_eq!(
        resource_location("/photo.jpg"),
        ("./media/photo.jpg".to_string(), HttpContentType::Html)
    );
    assert_eq!(
        resource_location("/photo.jpeg"),
        ("./media/photo.jpeg".to_string(), HttpContentType::Jpeg)
    );
    assert_eq!(
        resource_location("/logo.png"),
        ("./media/logo.png".to_string(), HttpContentType::Png)
    );
    assert_eq!(
        resource_location("/style.css"),
        ("./static/style.css".to_string(), HttpContentType::Css)
    );
    assert_eq!(
        resource_location("/page"),
        ("./static/page".to_string(), HttpContentType::Html)
    );
}

#[test]
fn paths_are_routed_to_their_views() {
    assert_eq!(route("/"), Route::Index);
    assert_eq!(route("/test"), Route::Test);
    assert_eq!(route("/test/"), Route::Resource);
    assert_eq!(route("/style.css"), Route::Resource);
    assert_eq!(route(""), Route::Resource);
}

#[test]
fn address_is_host_colon_port() {
    let settings = Settings {
        host: "127.0.0.1".to_string(),
        port: 7878,
        templates_dir: "./templates".to_string(),
        static_dir: "./static".to_string(),
    };
    assert_eq!(settings.address(), "127.0.0.1:7878");
    let copy = settings.clone();
    assert_eq!(copy.port, 7878);
}

#[test]
fn numbers_are_written_in_decimal() {
    assert_eq!(push_decimal(String::new(), 0), "0");
    assert_eq!(push_decimal("n=".to_string(), 9), "n=9");
    assert_eq!(push_decimal(String::new(), 10), "10");
    assert_eq!(push_decimal(String::new(), 65535), "65535");
    assert_eq!(push_decimal(String::new(), u64::MAX), "18446744073709551615");
    assert_eq!(push_signed_decimal(String::new(), i32::MIN), "-2147483648");
    assert_eq!(push_signed_decimal(String::new(), i32::MAX), "2147483647");
    assert_eq!(push_signed_decimal("x".to_string(), -1), "x-1");
}

#[test]
fn text_helpers_agree_with_the_standard_library() {
    assert!(same_text("abc", "abc"));
    assert!(!same_text("abc", "abd"));
    assert!(!same_text("abc", "ab"));
    let chars = chars_of("h\u{e9}llo");
    assert_eq!(chars, vec!['h', '\u{e9}', 'l', 'l', 'o']);
    assert_eq!(string_of(&chars, 1, 4), "\u{e9}ll");
    assert_eq!(string_of(&chars, 2, 2), "");
}
