use rust_everywhere_notes::wasm::{
    axum_response_to_wasm_response, wasm_request_to_axum_request, RequestError, ResponseError, WasmRequest,
};

fn request(method: &str, url: &str, headers: Vec<(&str, &str)>) -> WasmRequest {
    WasmRequest::new(
        method.to_string(),
        url.to_string(),
        headers.into_iter().map(|(k, v)| (k.to_string(), v.to_string())).collect(),
        Some("body".to_string()),
    )
}

#[test]
fn a_good_request_passes_with_one_header_per_name() {
    let r = request("GET", "/show/1", vec![("accept", "a"), ("x-one", "1"), ("accept", "b")]);
    let parts = wasm_request_to_axum_request(&r).unwrap();
    assert_eq!(parts.method, "GET");
    assert_eq!(parts.uri, "/show/1");
    assert_eq!(parts.body, Some("body".to_string()));
    assert_eq!(parts.headers, vec![("x-one".to_string(), "1".to_string()), ("accept".to_string(), "b".to_string())]);
}

#[test]
fn bad_pieces_are_refused_in_order() {
    assert!(matches!(wasm_request_to_axum_request(&request("", "/", vec![])), Err(RequestError::InvalidMethod)));
    assert!(matches!(wasm_request_to_axum_request(&request("GET", "http://[::1", vec![])), Err(RequestError::InvalidUri)));
    assert!(matches!(
        wasm_request_to_axum_request(&request("GET", "/", vec![("bad name", "v")])),
        Err(RequestError::InvalidHeaderName(n)) if n == "bad name"
    ));
    assert!(matches!(
        wasm_request_to_axum_request(&request("GET", "/", vec![("x", "line\nbreak")])),
        Err(RequestError::InvalidHeaderValue(n)) if n == "x"
    ));
}

#[test]
fn method_and_header_name_characters() {
    assert!(wasm_request_to_axum_request(&request("PROPFIND", "/", vec![])).is_ok());
    assert!(matches!(wasm_request_to_axum_request(&request("GE T", "/", vec![])), Err(RequestError::InvalidMethod)));
    assert!(matches!(wasm_request_to_axum_request(&request("GÉT", "/", vec![])), Err(RequestError::InvalidMethod)));
    assert!(wasm_request_to_axum_request(&request("GET", "/", vec![("X-Odd#$%", "v")])).is_ok());
    assert!(matches!(
        wasm_request_to_axum_request(&request("GET", "/", vec![("", "v")])),
        Err(RequestError::InvalidHeaderName(_))
    ));
}

#[test]
fn request_accessors() {
    let mut r = request("POST", "/create", vec![("a", "1")]);
    assert_eq!(r.uri(), "/create");
    assert_eq!(r.method(), "POST");
    assert_eq!(r.body(), "body");
    r.set_body("new".to_string());
    assert_eq!(r.body(), "new");
    r.headers_append("a".to_string(), "2".to_string());
    assert_eq!(r.headers(), vec![("a".to_string(), "2".to_string())]);
}

#[test]
fn response_is_turned_into_text() {
    let headers = vec![
        ("content-type".to_string(), b"text/html".to_vec()),
        ("x-bin".to_string(), vec![0xff]),
        ("set-cookie".to_string(), b"a=1".to_vec()),
        ("set-cookie".to_string(), b"b=2".to_vec()),
    ];
    let w = axum_response_to_wasm_response(200, &headers, b"<p>hi</p>".to_vec()).unwrap();
    assert_eq!(w.status_code(), "200 OK");
    assert_eq!(w.body(), Some("<p>hi</p>".to_string()));
    assert_eq!(
        w.headers(),
        vec![("content-type".to_string(), "text/html".to_string()), ("set-cookie".to_string(), "b=2".to_string())]
    );
    let odd = axum_response_to_wasm_response(599, &vec![], Vec::new()).unwrap();
    assert_eq!(odd.status_code, "599 <unknown status code>");
    assert_eq!(odd.body, Some(String::new()));
}

#[test]
fn a_body_that_is_not_utf8_is_refused() {
    assert_eq!(axum_response_to_wasm_response(303, &vec![], vec![0xc3]).unwrap_err(), ResponseError::BodyNotUtf8);
}
