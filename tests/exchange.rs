use scraper_archive::client::{group_headers, header_value_text, response_headers_to_index_map, HeaderTextError};
use scraper_archive::exchange::{Exchange, Response};
use scraper_archive::multi_value::MultiValue;
use scraper_archive::request::{is_method_get, HeaderError, Request};

fn request_at(timestamp_ms: i64) -> Request {
    Request::new("https://itunes.apple.com/lookup?id=1", Some(timestamp_ms), None, None, None::<String>)
        .unwrap()
}

fn pairs(values: &[(&str, &str)]) -> Vec<(String, String)> {
    values.iter().map(|(k, v)| (k.to_string(), v.to_string())).collect()
}

#[test]
fn file_name_is_timestamp_millis() {
    let exchange = Exchange {
        request: request_at(1759391955666),
        response: Response { headers: Vec::new(), data: 1_u8 },
    };
    assert_eq!(exchange.file_name(), "1759391955666.json");
    let early = Exchange {
        request: request_at(-42),
        response: Response { headers: Vec::new(), data: () },
    };
    assert_eq!(early.file_name(), "-42.json");
    let epoch = Exchange { request: request_at(0), response: Response { headers: Vec::new(), data: () } };
    assert_eq!(epoch.file_name(), "0.json");
}

#[test]
fn map_keeps_request_and_headers() {
    let headers = vec![("x".to_string(), MultiValue::new("1".to_string()))];
    let exchange = Exchange {
        request: request_at(7),
        response: Response { headers: headers.clone(), data: 20_u32 },
    };
    let mapped = exchange.map(|d| d.to_string());
    assert_eq!(mapped.response.data, "20");
    assert_eq!(mapped.response.headers, headers);
    assert_eq!(mapped.request.timestamp_ms, 7);
    assert_eq!(mapped.request.url, "https://itunes.apple.com/lookup?id=1");
}

#[test]
fn and_then_propagates_failure() {
    let ok = Response { headers: Vec::new(), data: "12" }.and_then(|d| d.parse::<u8>());
    assert_eq!(ok.unwrap().data, 12);
    let bad = Response { headers: Vec::new(), data: "x" }.and_then(|d| d.parse::<u8>());
    assert!(bad.is_err());
    let mapped = Response { headers: Vec::new(), data: 3 }.map(|d: i32| d * 2);
    assert_eq!(mapped.data, 6);
}

#[test]
fn new_request_defaults() {
    let r = Request::new("https://Example.com", Some(1), None, None, None::<String>).unwrap();
    assert_eq!(r.url, "https://example.com/");
    assert_eq!(r.method, "GET");
    assert!(r.headers.is_empty());
    assert_eq!(r.body, None);
    assert!(is_method_get(&r.method));
}

#[test]
fn new_request_takes_parts() {
    let r = Request::new(
        "https://example.com/x",
        Some(99),
        Some("POST".to_string()),
        Some(pairs(&[("a", "1"), ("b", "2"), ("a", "3")])),
        Some("body".to_string()),
    )
    .unwrap();
    assert_eq!(r.method, "POST");
    assert!(!is_method_get(&r.method));
    assert_eq!(r.timestamp_ms, 99);
    assert_eq!(r.body.as_deref(), Some("body"));
    let entries: Vec<(String, String)> =
        r.headers.iter().map(|(k, v)| (k.clone(), v.clone())).collect();
    assert_eq!(entries, pairs(&[("a", "3"), ("b", "2")]));
}

#[test]
fn new_request_takes_time_now_by_default() {
    let r = Request::new("https://example.com/", None, None, None, None::<String>).unwrap();
    assert!(r.timestamp_ms > 1_600_000_000_000);
}

#[test]
fn invalid_url_is_refused() {
    assert!(Request::new("not a url", Some(0), None, None, None::<String>).is_err());
    assert!(Request::new("/relative/path", Some(0), None, None, None::<String>).is_err());
}

#[test]
fn header_map_validates_names_and_values() {
    let good = Request::new("https://e.com/", Some(0), None, Some(pairs(&[("Accept", "*/*"), ("x-a", "b\tc")])), None::<String>)
        .unwrap();
    let map = good.header_map().unwrap();
    assert_eq!(map.len(), 2);
    assert_eq!(map[0].0.as_str(), "accept");
    assert_eq!(map[1].1.to_str().unwrap(), "b\tc");

    let bad_name = Request::new("https://e.com/", Some(0), None, Some(pairs(&[("bad name", "v")])), None::<String>)
        .unwrap();
    assert!(matches!(bad_name.header_map(), Err(HeaderError::Name(_))));

    let bad_value = Request::new("https://e.com/", Some(0), None, Some(pairs(&[("ok", "a\u{7f}")])), None::<String>)
        .unwrap();
    assert!(matches!(bad_value.header_map(), Err(HeaderError::Value(_))));
}

#[test]
fn headers_group_by_name_in_first_order() {
    let grouped = group_headers(pairs(&[
        ("set-cookie", "a=1"),
        ("content-type", "text/html"),
        ("set-cookie", "b=2"),
        ("set-cookie", "c=3"),
    ]));
    assert_eq!(
        grouped,
        vec![
            (
                "set-cookie".to_string(),
                MultiValue::try_from(vec!["a=1".to_string(), "b=2".to_string(), "c=3".to_string()]).unwrap()
            ),
            ("content-type".to_string(), MultiValue::new("text/html".to_string())),
        ]
    );
    assert!(group_headers(Vec::new()).is_empty());
}

#[test]
fn live_headers_become_value_sets() {
    let headers = vec![
        ("vary".to_string(), b"accept".to_vec()),
        ("date".to_string(), b"Mon, 06 Oct 2025".to_vec()),
        ("vary".to_string(), b"origin\tx".to_vec()),
    ];
    let grouped = response_headers_to_index_map(headers).unwrap();
    assert_eq!(
        grouped,
        vec![
            (
                "vary".to_string(),
                MultiValue::try_from(vec!["accept".to_string(), "origin\tx".to_string()]).unwrap()
            ),
            ("date".to_string(), MultiValue::new("Mon, 06 Oct 2025".to_string())),
        ]
    );
    assert_eq!(response_headers_to_index_map(Vec::new()), Ok(Vec::new()));
}

#[test]
fn header_values_outside_visible_ascii_fail() {
    let headers = vec![
        ("ok".to_string(), b"fine".to_vec()),
        ("x".to_string(), vec![0xc3, 0xa9]),
        ("y".to_string(), vec![0x7f]),
    ];
    assert_eq!(
        response_headers_to_index_map(headers),
        Err(HeaderTextError { name: "x".to_string() })
    );
    assert_eq!(header_value_text(&b"a b\tc~".to_vec()), Some("a b\tc~".to_string()));
    assert_eq!(header_value_text(&vec![0x7f]), None);
    assert_eq!(header_value_text(&vec![0x1f]), None);
    assert_eq!(header_value_text(&Vec::new()), Some(String::new()));
}

#[test]
fn file_name_at_integer_limits() {
    let low = Exchange { request: request_at(i64::MIN), response: Response { headers: Vec::new(), data: () } };
    assert_eq!(low.file_name(), "-9223372036854775808.json");
    let high = Exchange { request: request_at(i64::MAX), response: Response { headers: Vec::new(), data: () } };
    assert_eq!(high.file_name(), "9223372036854775807.json");
    let ten = Exchange { request: request_at(10), response: Response { headers: Vec::new(), data: () } };
    assert_eq!(ten.file_name(), "10.json");
}
