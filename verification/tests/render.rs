use std::time::Duration;
use zhttp::error::RunError;
use zhttp::format::{
    classify_status, format_duration, format_nanos, render_report, render_response, status_color,
    Palette, Response, StatusClass, DIM, GREEN, RED, RESET, YELLOW,
};
use zhttp::json::reindent;
use zhttp::parse::{parse_request, RequestBlock};
use zhttp::pipeline::{conclude, load_request, Outcome};

fn get() -> RequestBlock {
    parse_request("GET https://example.com").unwrap()
}

fn response(status: u16, text: &str, body: &str) -> Response {
    Response {
        status,
        status_text: text.to_string(),
        version: "HTTP/1.1".to_string(),
        headers: vec![
            ("content-type".to_string(), "application/json".to_string()),
            ("x-id".to_string(), "7".to_string()),
        ],
        body: body.to_string(),
    }
}

#[test]
fn the_ansi_codes() {
    assert_eq!(RESET, "\x1b[0m");
    assert_eq!(DIM, "\x1b[2m");
    assert_eq!(GREEN, "\x1b[32m");
    assert_eq!(YELLOW, "\x1b[33m");
    assert_eq!(RED, "\x1b[31m");
    let p = Palette::ansi();
    assert_eq!((p.reset, p.dim, p.success, p.redirect, p.failure), (RESET, DIM, GREEN, YELLOW, RED));
}

#[test]
fn status_classes_at_their_bounds() {
    for (status, class) in [
        (0u16, StatusClass::Failure),
        (100, StatusClass::Failure),
        (199, StatusClass::Failure),
        (200, StatusClass::Success),
        (201, StatusClass::Success),
        (299, StatusClass::Success),
        (300, StatusClass::Redirect),
        (301, StatusClass::Redirect),
        (399, StatusClass::Redirect),
        (400, StatusClass::Failure),
        (500, StatusClass::Failure),
        (u16::MAX, StatusClass::Failure),
    ] {
        assert_eq!(classify_status(status), class, "{}", status);
    }
    assert_eq!(status_color(300), YELLOW);
    assert_eq!(status_color(199), RED);
    let p = Palette { reset: "r", dim: "d", success: "s", redirect: "m", failure: "f" };
    assert_eq!(p.color_of(204), "s");
    assert_eq!(p.color_of(302), "m");
    assert_eq!(p.color_of(404), "f");
}

#[test]
fn durations_under_a_second_are_whole_milliseconds() {
    assert_eq!(format_nanos(0), "0ms");
    assert_eq!(format_nanos(999_999), "0ms");
    assert_eq!(format_nanos(1_000_000), "1ms");
    assert_eq!(format_nanos(999_999_999), "999ms");
    assert_eq!(format_duration(Duration::from_micros(1_999)), "1ms");
}

#[test]
fn durations_from_a_second_on_have_two_decimals() {
    assert_eq!(format_nanos(1_000_000_000), "1.00s");
    assert_eq!(format_nanos(1_004_999_999), "1.00s");
    assert_eq!(format_nanos(1_005_000_001), "1.01s");
    assert_eq!(format_nanos(1_006_000_000), "1.01s");
    assert_eq!(format_nanos(9_999_000_000), "10.00s");
    assert_eq!(format_nanos(59_995_000_001), "60.00s");
    assert_eq!(format_nanos(3_600_000_000_000), "3600.00s");
    assert_eq!(format_duration(Duration::new(12, 340_000_000)), "12.34s");
    assert_eq!(format_duration(Duration::MAX), "18446744073709551616.00s");
}

#[test]
fn a_duration_halfway_between_two_goes_to_the_even_one() {
    assert_eq!(format_nanos(1_125_000_000), "1.12s");
    assert_eq!(format_nanos(1_375_000_000), "1.38s");
    assert_eq!(format_nanos(1_625_000_000), "1.62s");
    assert_eq!(format_nanos(1_875_000_000), "1.88s");
    assert_eq!(format_nanos(1_995_000_000), "2.00s");
}

#[test]
fn durations_agree_with_floating_point_rendering_away_from_halfway() {
    let mut ms: u64 = 1000;
    while ms < 120_000 {
        if ms % 10 != 5 {
            let d = Duration::from_millis(ms);
            assert_eq!(format_duration(d), format!("{:.2}s", d.as_secs_f64()), "{}", ms);
        }
        ms += 1;
    }
}

#[test]
fn json_is_laid_out_again() {
    assert_eq!(reindent("{\"a\":1}").as_deref(), Some("{\n  \"a\": 1\n}"));
    assert_eq!(reindent("  [1,2]  ").as_deref(), Some("[\n  1,\n  2\n]"));
    assert_eq!(reindent("42").as_deref(), Some("42"));
    assert_eq!(reindent("\"x\"").as_deref(), Some("\"x\""));
}

#[test]
fn what_is_no_json_is_not_laid_out() {
    for body in ["", "hello", "{", "{\"a\":1} x", "<html></html>"] {
        assert_eq!(reindent(body), None, "{:?}", body);
    }
}

#[test]
fn the_report_of_a_json_response() {
    let out = render_response(&response(200, "OK", "{\"a\":1}"), &get(), Duration::from_millis(42));
    let expected = concat_all(&[
        "\x1b]2;GET https://example.com\x07",
        "GET https://example.com\n\n",
        "\x1b[32mHTTP/1.1 200 OK\x1b[0m\n\n",
        "\x1b[2mcontent-type: application/json\x1b[0m\n",
        "\x1b[2mx-id: 7\x1b[0m\n",
        "\n",
        "{\n  \"a\": 1\n}\n",
        "\n\x1b[32m200 OK \u{b7} 7 bytes \u{b7} 42ms\x1b[0m\n",
    ]);
    assert_eq!(out, expected);
}

fn concat_all(parts: &[&str]) -> String {
    let mut s = String::new();
    for p in parts {
        s.push_str(p);
    }
    s
}

#[test]
fn the_report_of_a_named_request_with_a_version() {
    let req = parse_request("### Create\nPOST https://example.com/items HTTP/2\nA: b\n\nx").unwrap();
    let resp = Response {
        status: 404,
        status_text: "Not Found".to_string(),
        version: "HTTP/2".to_string(),
        headers: vec![],
        body: "gr\u{fc}\u{df}e".to_string(),
    };
    let out = render_response(&resp, &req, Duration::from_millis(2345));
    let expected = concat_all(&[
        "\x1b]2;Create\x07",
        "POST https://example.com/items HTTP/2\n\n",
        "\x1b[31mHTTP/2 404 Not Found\x1b[0m\n\n",
        "\n",
        "gr\u{fc}\u{df}e\n",
        "\n\x1b[31m404 Not Found \u{b7} 7 bytes \u{b7} 2.34s\x1b[0m\n",
    ]);
    assert_eq!(out, expected);
}

#[test]
fn a_raw_body_ends_in_one_line_feed() {
    let p = Palette { reset: "", dim: "", success: "", redirect: "", failure: "" };
    let with = render_report(&p, &get(), &response(301, "Moved", "text\n"), None, 0);
    let without = render_report(&p, &get(), &response(301, "Moved", "text"), None, 0);
    let empty = render_report(&p, &get(), &response(301, "Moved", ""), None, 0);
    let head = "\x1b]2;GET https://example.com\x07GET https://example.com\n\nHTTP/1.1 301 Moved\n\ncontent-type: application/json\nx-id: 7\n\n";
    assert_eq!(with, format!("{}text\n\n301 Moved \u{b7} 5 bytes \u{b7} 0ms\n", head));
    assert_eq!(without, format!("{}text\n\n301 Moved \u{b7} 4 bytes \u{b7} 0ms\n", head));
    assert_eq!(empty, format!("{}\n\n301 Moved \u{b7} 0 bytes \u{b7} 0ms\n", head));
}

#[test]
fn a_given_layout_takes_the_place_of_the_body() {
    let p = Palette { reset: "]", dim: "[", success: "<S>", redirect: "<M>", failure: "<F>" };
    let out = render_report(&p, &get(), &response(200, "OK", "raw"), Some("LAID OUT".to_string()), 1_500_000_000);
    assert_eq!(
        out,
        "\x1b]2;GET https://example.com\x07GET https://example.com\n\n<S>HTTP/1.1 200 OK]\n\n[content-type: application/json]\n[x-id: 7]\n\nLAID OUT\n\n<S>200 OK \u{b7} 3 bytes \u{b7} 1.50s]\n"
    );
}

#[test]
fn rendering_twice_gives_the_same_report() {
    let resp = response(500, "Internal Server Error", "{\"b\":[1,{\"c\":null}],\"a\":true}");
    let req = parse_request("### N\nPUT https://example.com HTTP/1.1\nA: b\n\n{}").unwrap();
    let d = Duration::from_millis(1234);
    let first = render_response(&resp, &req, d);
    let second = render_response(&resp, &req, d);
    assert_eq!(first, second);
    let later = render_response(&resp, &req, Duration::from_millis(77));
    let cut = first.rfind("bytes \u{b7} ").unwrap();
    assert_eq!(first[..cut], later[..cut]);
    assert!(first.ends_with("bytes \u{b7} 1.23s\x1b[0m\n"));
    assert!(later.ends_with("bytes \u{b7} 77ms\x1b[0m\n"));
}

#[test]
fn error_messages() {
    assert_eq!(
        RunError::FileRead("a.http".to_string(), "No such file".to_string()).message(),
        "Error reading a.http: No such file"
    );
    assert_eq!(RunError::NoRequestBlock(0).message(), "No request block found at line 0");
    assert_eq!(RunError::NoRequestBlock(1234).message(), "No request block found at line 1234");
    assert_eq!(
        RunError::ParseFailed("no METHOD URL found".to_string()).message(),
        "Parse error: no METHOD URL found"
    );
    assert_eq!(RunError::Transport("dns".to_string()).message(), "Transport error: dns");
}

#[test]
fn loading_locates_and_parses() {
    let content = "### One\nGET https://one\n###\n# nothing here\n###\nPOST https://three\nA: b\n\nbody";
    let req = load_request(content, 2).unwrap();
    assert_eq!(req.name.as_deref(), Some("One"));
    assert_eq!(req.url, "https://one");
    let req = load_request(content, 9).unwrap();
    assert_eq!(req.method, "POST");
    assert_eq!(req.body.as_deref(), Some("body"));
    assert!(matches!(load_request(content, 3), Err(RunError::NoRequestBlock(3))));
    assert!(matches!(load_request(content, 10), Err(RunError::NoRequestBlock(10))));
    match load_request(content, 4) {
        Err(RunError::ParseFailed(reason)) => assert_eq!(reason, "no METHOD URL found"),
        other => panic!("{:?}", other),
    }
}

#[test]
fn any_status_is_reported_and_only_the_transport_fails() {
    let req = get();
    let d = Duration::from_millis(5);
    for status in [200u16, 302, 404, 500] {
        let out = conclude(&req, &Outcome::Answered(response(status, "X", "b")), d).unwrap();
        assert_eq!(out, render_response(&response(status, "X", "b"), &req, d));
    }
    match conclude(&req, &Outcome::Failed("connection refused".to_string()), d) {
        Err(RunError::Transport(cause)) => assert_eq!(cause, "connection refused"),
        other => panic!("{:?}", other),
    }
}
