use marketstate_codex_connector::access::{allowed_origin, valid_host};
use marketstate_codex_connector::account::OwnerBinding;
use marketstate_codex_connector::codec::parse_json;
use marketstate_codex_connector::json::Json;
use marketstate_codex_connector::owner::AuthFailure;
use marketstate_codex_connector::request::{get_header, HttpRequest, ReadStep, RequestReader};
use marketstate_codex_connector::response::{document_body, write_http_response, HttpResponse};
use marketstate_codex_connector::server::{
    cancel_response, chat_response, check_access, handle_http_connection, health_response,
    requires_user, route, unreadable_response, Dispatch, HealthReport,
};

fn read(text: &str) -> Result<HttpRequest, String> {
    read_chunks(&[text.as_bytes()])
}

fn read_chunks(chunks: &[&[u8]]) -> Result<HttpRequest, String> {
    let mut reader = RequestReader::new();
    for chunk in chunks {
        match reader.feed(chunk) {
            ReadStep::NeedMore => {}
            ReadStep::Done(request) => return Ok(request),
            ReadStep::Failed(error) => return Err(error),
        }
    }
    match reader.feed(&[]) {
        ReadStep::Failed(error) => Err(error),
        _ => panic!("the end of the stream settles a request"),
    }
}

fn request(method: &str, path: &str, headers: &str, body: &str) -> HttpRequest {
    let text = format!(
        "{} {} HTTP/1.1\r\nHost: 127.0.0.1:8765\r\n{}Content-Length: {}\r\n\r\n{}",
        method,
        path,
        headers,
        body.len(),
        body
    );
    match read(&text) {
        Ok(request) => request,
        Err(error) => panic!("{}", error),
    }
}

fn user() -> OwnerBinding {
    OwnerBinding { user_id: "u1".to_string(), email: "u1@example.com".to_string() }
}

fn serve(request: &HttpRequest, answer: Option<Result<OwnerBinding, AuthFailure>>) -> Dispatch {
    handle_http_connection(request, answer)
}

fn answered(dispatch: Dispatch) -> HttpResponse {
    match dispatch {
        Dispatch::Answer(response) => response,
        _ => panic!("expected an answer"),
    }
}

fn body(response: &HttpResponse) -> String {
    String::from_utf8(response.body.clone()).unwrap()
}

#[test]
fn a_request_is_read() {
    let request = read(
        "POST /chat HTTP/1.1\r\nHost: LOCALHOST:8765\r\nX-Name : a: b \r\nno colon\r\nContent-Length: 4\r\n\r\nbodymore",
    )
    .ok()
    .unwrap();
    assert_eq!(request.method, "POST");
    assert_eq!(request.path, "/chat");
    assert_eq!(get_header(&request.headers, "host"), Some("LOCALHOST:8765"));
    assert_eq!(get_header(&request.headers, "x-name"), Some("a: b"));
    assert_eq!(get_header(&request.headers, "no colon"), None);
    assert_eq!(request.body, b"body");
}

#[test]
fn how_the_stream_is_cut_makes_no_difference() {
    let text = b"POST /chat HTTP/1.1\r\nHost: a\r\ncontent-length: 5\r\n\r\nhello";
    for cut in 1..text.len() {
        let request = read_chunks(&[&text[..cut], &text[cut..]]).ok().unwrap();
        assert_eq!(request.path, "/chat");
        assert_eq!(request.body, b"hello");
        assert_eq!(get_header(&request.headers, "host"), Some("a"));
    }
    let bytes: Vec<&[u8]> = text.chunks(1).collect();
    assert_eq!(read_chunks(&bytes).ok().unwrap().body, b"hello");
}

#[test]
fn how_a_stream_that_ends_is_cut_makes_no_difference() {
    let text = b"POST /chat HTTP/1.1\r\nHost: a\r\ncontent-length: 9\r\n\r\nhello";
    for cut in 1..text.len() {
        let error = read_chunks(&[&text[..cut], &text[cut..]]).err().unwrap();
        assert_eq!(error, "Connection closed before the body was complete.");
    }
    let head = b"POST /chat HTTP/1.1\r\nHost: a\r\n";
    for cut in 1..head.len() {
        let error = read_chunks(&[&head[..cut], &head[cut..]]).err().unwrap();
        assert_eq!(error, "Connection closed before the request was complete.");
    }
}

#[test]
fn a_later_header_replaces_an_earlier_one() {
    let request = read("GET / HTTP/1.1\r\nA: 1\r\na: 2\r\n\r\n").ok().unwrap();
    assert_eq!(get_header(&request.headers, "a"), Some("2"));
    assert_eq!(request.body, b"");
}

#[test]
fn requests_that_cannot_be_read_are_refused() {
    let error = |text: &str| read(text).err().unwrap();
    assert_eq!(error(""), "Connection closed before the request was complete.");
    assert_eq!(error("GET / HTTP/1.1\r\n"), "Connection closed before the request was complete.");
    assert_eq!(error("\r\n\r\n"), "Invalid HTTP request line.");
    assert_eq!(error("GET\r\n\r\n"), "Invalid HTTP request line.");
    assert_eq!(error("GET / HTTP/1.1\r\nContent-Length: x\r\n\r\n"), "Invalid Content-Length.");
    assert_eq!(
        error("GET / HTTP/1.1\r\nContent-Length: 4194305\r\n\r\n"),
        "Request body is too large."
    );
    assert_eq!(
        error("GET / HTTP/1.1\r\nContent-Length: 4194304\r\n\r\nx"),
        "Connection closed before the body was complete."
    );
    assert_eq!(
        read_chunks(&[b"GET / HTTP/1.1\r\nA: \xff\r\n\r\n"]).err().unwrap(),
        "HTTP headers must be UTF-8."
    );
    let long = vec![b'a'; 65537];
    assert_eq!(read_chunks(&[&long]).err().unwrap(), "HTTP headers are too large.");
}

#[test]
fn headers_up_to_the_limit_are_read() {
    let mut text = b"GET / HTTP/1.1\r\nA: ".to_vec();
    while text.len() < 65532 {
        text.push(b'a');
    }
    text.extend_from_slice(b"\r\n\r\n");
    assert_eq!(text.len(), 65536);
    assert_eq!(read_chunks(&[&text]).ok().unwrap().path, "/");
}

#[test]
fn origins_that_are_known_are_allowed() {
    for origin in [
        "http://127.0.0.1:5174",
        "http://localhost:5174",
        "tauri://localhost",
        "https://tauri.localhost",
        "https://marketstate.ai",
        "https://www.marketstate.ai",
        "https://app.marketstate.ai",
        "https://a.b.marketstate.ai",
        "https://staging-2.marketstate.ai",
        "https://a~b.marketstate.ai",
        "https://a_b.marketstate.ai",
        "https://m\u{e4}rkte.marketstate.ai",
    ] {
        assert_eq!(allowed_origin(Some(origin)), Some(origin.to_string()));
    }
    assert_eq!(
        allowed_origin(Some("  https://marketstate.ai ")),
        Some("https://marketstate.ai".to_string())
    );
}

#[test]
fn other_origins_are_not_allowed() {
    for origin in [
        "",
        "null",
        "http://marketstate.ai",
        "https://marketstate.ai.example.com",
        "https://evilmarketstate.ai",
        "https://example.com/.marketstate.ai",
        "https://example.com?.marketstate.ai",
        "https://example.com#.marketstate.ai",
        "https://example.com\\.marketstate.ai",
        "https://example.com:1.marketstate.ai",
        "https://user@app.marketstate.ai",
        "https://a b.marketstate.ai",
        "https://a\nb.marketstate.ai",
        "http://app.marketstate.ai",
        "http://localhost:5175",
        "https://MARKETSTATE.ai",
    ] {
        assert_eq!(allowed_origin(Some(origin)), None, "{}", origin);
    }
    assert_eq!(allowed_origin(None), None);
}

#[test]
fn only_loopback_hosts_are_valid() {
    assert!(valid_host(Some("127.0.0.1:8765")));
    assert!(valid_host(Some("LocalHost:8765")));
    assert!(valid_host(Some("[::1]:8765")));
    assert!(!valid_host(Some("127.0.0.1")));
    assert!(!valid_host(Some("127.0.0.1:8766")));
    assert!(!valid_host(Some(" localhost:8765")));
    assert!(!valid_host(Some("example.com:8765")));
    assert!(!valid_host(None));
}

#[test]
fn a_response_is_written() {
    let response =
        HttpResponse::text(200, "OK", "hé\n", Some("https://marketstate.ai".to_string()));
    let expected = "HTTP/1.1 200 OK\r\nContent-Type: text/plain; charset=utf-8\r\nContent-Length: 4\r\nConnection: close\r\nAccess-Control-Allow-Methods: GET, POST, OPTIONS\r\nAccess-Control-Allow-Headers: Content-Type, Authorization\r\nAccess-Control-Allow-Private-Network: true\r\nX-Content-Type-Options: nosniff\r\nCache-Control: no-store\r\nAccess-Control-Allow-Origin: https://marketstate.ai\r\nVary: Origin\r\n\r\nhé\n";
    assert_eq!(String::from_utf8(write_http_response(&response)).unwrap(), expected);
}

#[test]
fn a_response_without_origin_names_none() {
    let bytes = write_http_response(&HttpResponse::empty(204, "No Content", None));
    let text = String::from_utf8(bytes).unwrap();
    assert!(text.starts_with("HTTP/1.1 204 No Content\r\n"));
    assert!(text.contains("\r\nContent-Length: 0\r\n"));
    assert!(!text.contains("Access-Control-Allow-Origin"));
    assert!(text.ends_with("\r\nCache-Control: no-store\r\n\r\n"));
}

#[test]
fn the_announced_length_is_that_of_the_body() {
    let response = HttpResponse::json(200, "OK", &Json::Text("a".repeat(1234)), None);
    let text = String::from_utf8(write_http_response(&response)).unwrap();
    let (head, rest) = text.split_once("\r\n\r\n").unwrap();
    assert!(head.contains("\r\nContent-Length: 1236\r\n"));
    assert_eq!(rest.len(), 1236);
}

#[test]
fn a_response_reads_back() {
    let response =
        HttpResponse::text(200, "OK", "hello", Some("https://marketstate.ai".to_string()));
    let bytes = write_http_response(&response);
    assert_eq!(bytes.windows(4).position(|part| part == b"\r\n\r\n"), Some(bytes.len() - 5 - 4));
    let read = read_chunks(&[&bytes]).ok().unwrap();
    assert_eq!((read.method.as_str(), read.path.as_str()), ("HTTP/1.1", "200"));
    assert_eq!(get_header(&read.headers, "content-length"), Some("5"));
    assert_eq!(get_header(&read.headers, "connection"), Some("close"));
    assert_eq!(
        get_header(&read.headers, "access-control-allow-origin"),
        Some("https://marketstate.ai")
    );
    assert_eq!(read.body, b"hello");
}

#[test]
fn a_document_that_cannot_be_written_is_replaced() {
    assert_eq!(
        document_body(Err("no".to_string())),
        b"{\"error\":\"Serialization failed.\"}"
    );
    assert_eq!(document_body(Ok(b"{}".to_vec())), b"{}");
}

#[test]
fn an_unreadable_request_is_answered() {
    let response = unreadable_response("Invalid Content-Length.");
    assert_eq!((response.status, response.reason), (400, "Bad Request"));
    assert_eq!(body(&response), r#"{"error":"Invalid Content-Length."}"#);
    assert_eq!(response.content_type, "application/json; charset=utf-8");
    assert_eq!(response.origin, None);
}

#[test]
fn three_paths_need_a_user() {
    for path in ["/health", "/chat", "/cancel"] {
        assert!(requires_user("GET", path));
        assert!(requires_user("POST", path));
        assert!(!requires_user("OPTIONS", path));
    }
    assert!(!requires_user("GET", "/"));
    assert!(!requires_user("POST", "/other"));
}

#[test]
fn access_says_whether_the_sender_must_be_known() {
    assert!(check_access(&request("GET", "/health", "", "")).ok().unwrap().requires_user());
    assert!(!check_access(&request("GET", "/", "", "")).ok().unwrap().requires_user());
    let wrong_host = read("GET / HTTP/1.1\r\nHost: example.com\r\n\r\n").ok().unwrap();
    assert_eq!(check_access(&wrong_host).err().unwrap().status, 403);
}

#[test]
fn strangers_are_refused_first() {
    let wrong_host = read("GET /health HTTP/1.1\r\nHost: example.com\r\n\r\n").ok().unwrap();
    let response = answered(serve(&wrong_host, Some(Ok(user()))));
    assert_eq!((response.status, response.reason), (403, "Forbidden"));
    assert_eq!(body(&response), r#"{"error":"Invalid loopback host."}"#);

    let wrong_origin = request("GET", "/health", "Origin: https://example.com\r\n", "");
    let response = answered(serve(&wrong_origin, Some(Ok(user()))));
    assert_eq!(response.status, 403);
    assert_eq!(response.origin, None);
    assert_eq!(body(&response), r#"{"error":"Origin is not allowed."}"#);
}

#[test]
fn a_sender_who_is_not_let_in_is_told_why() {
    let request = request("POST", "/chat", "Origin: https://marketstate.ai\r\n", "{}");
    let failure = AuthFailure {
        status: 403,
        reason: "Forbidden",
        code: "connector_owned_by_another_user",
        message: "This connector belongs to somebody.".to_string(),
    };
    let response = answered(serve(&request, Some(Err(failure))));
    assert_eq!((response.status, response.reason), (403, "Forbidden"));
    assert_eq!(response.origin, Some("https://marketstate.ai".to_string()));
    assert_eq!(
        body(&response),
        r#"{"code":"connector_owned_by_another_user","error":"This connector belongs to somebody.","ok":false}"#
    );
    let response = answered(serve(&request, None));
    assert_eq!(response.status, 500);
}

#[test]
fn requests_are_routed() {
    let response = answered(serve(&request("OPTIONS", "/chat", "", ""), None));
    assert_eq!((response.status, response.reason), (204, "No Content"));
    assert_eq!(response.body, b"");

    let response = answered(serve(&request("GET", "/", "", ""), None));
    assert_eq!((response.status, response.reason), (200, "OK"));
    assert_eq!(body(&response), "MarketState Codex Connector is running.\n");
    assert_eq!(response.content_type, "text/plain; charset=utf-8");

    let response = answered(serve(&request("GET", "/nowhere", "", ""), None));
    assert_eq!((response.status, response.reason), (404, "Not Found"));
    assert_eq!(body(&response), r#"{"error":"Not found."}"#);

    let response = answered(serve(&request("GET", "/chat", "", ""), Some(Ok(user()))));
    assert_eq!(response.status, 404);

    let response = answered(serve(&request("POST", "/chat", "", "nonsense"), Some(Ok(user()))));
    assert_eq!((response.status, response.reason), (400, "Bad Request"));
    assert_eq!(body(&response), r#"{"error":"Invalid JSON body."}"#);
}

#[test]
fn protected_requests_reach_their_aim_with_a_user() {
    match serve(&request("GET", "/health", "", ""), Some(Ok(user()))) {
        Dispatch::Health { origin, user } => {
            assert_eq!(origin, None);
            assert_eq!(user.unwrap().user_id, "u1");
        }
        _ => panic!("expected the health of the connector"),
    }
    match serve(&request("POST", "/cancel", "", r#"{"request_id":" r 1"}"#), Some(Ok(user()))) {
        Dispatch::Cancel { request_id, .. } => assert_eq!(request_id, " r 1"),
        _ => panic!("expected a cancellation"),
    }
    match serve(&request("POST", "/cancel", "", "nonsense"), Some(Ok(user()))) {
        Dispatch::Cancel { request_id, .. } => assert_eq!(request_id, ""),
        _ => panic!("expected a cancellation"),
    }
    match serve(&request("POST", "/chat", "", r#"{"message":"hi"}"#), Some(Ok(user()))) {
        Dispatch::Chat { payload, .. } => assert_eq!(payload.text_in("message"), Some("hi")),
        _ => panic!("expected a chat"),
    }
}

#[test]
fn routing_takes_the_document_that_was_read() {
    match route("POST", "/chat", Some(Json::Unsigned(3)), None, None) {
        Dispatch::Chat { payload, .. } => assert_eq!(payload, Json::Unsigned(3)),
        _ => panic!("expected a chat"),
    }
}

#[test]
fn health_is_told() {
    let report = HealthReport {
        authenticated: true,
        auth_status: "Connected to Codex".to_string(),
        codex_bin: "/usr/local/bin/codex".to_string(),
        codex_version: "codex 1.0".to_string(),
        workspace_root: "/w".to_string(),
        active_requests: 2,
    };
    let response = health_response(&report, &Some(user()), None);
    assert_eq!((response.status, response.reason), (200, "OK"));
    assert_eq!(
        body(&response),
        r#"{"active_requests":2,"auth_required":true,"auth_status":"Connected to Codex","authenticated":true,"codex_bin":"/usr/local/bin/codex","codex_version":"codex 1.0","managed_by":"marketstate-codex-connector","marketstate_user":{"email":"u1@example.com","user_id":"u1"},"ok":true,"workspace_root":"/w"}"#
    );
    let response = health_response(&report, &None, None);
    assert!(body(&response).contains(r#""marketstate_user":null"#));
}

#[test]
fn cancellation_is_answered() {
    let response = cancel_response("r1", true, None);
    assert_eq!(response.status, 200);
    assert_eq!(body(&response), r#"{"cancelled":true,"ok":true,"request_id":"r1"}"#);
    let response = cancel_response("r1", false, None);
    assert_eq!((response.status, response.reason), (404, "Not Found"));
    assert_eq!(
        body(&response),
        r#"{"cancelled":false,"error":"No active request has that request_id.","ok":false,"request_id":"r1"}"#
    );
}

#[test]
fn a_chat_is_answered_by_how_it_went() {
    let given = parse_json(br#"{"ok":true,"final_message":"hi"}"#).unwrap();
    let response = chat_response(&Ok(given), None);
    assert_eq!((response.status, response.reason), (200, "OK"));
    assert_eq!(body(&response), r#"{"final_message":"hi","ok":true}"#);

    let given = parse_json(br#"{"ok":false}"#).unwrap();
    let response = chat_response(&Ok(given), None);
    assert_eq!((response.status, response.reason), (502, "Bad Gateway"));

    let twice = Json::Object(vec![
        ("ok".to_string(), Json::Bool(true)),
        ("ok".to_string(), Json::Bool(false)),
    ]);
    let response = chat_response(&Ok(twice), None);
    assert_eq!(response.status, 502);
    assert_eq!(body(&response), r#"{"ok":false}"#);

    let response = chat_response(&Err("message is required.".to_string()), None);
    assert_eq!((response.status, response.reason), (400, "Bad Request"));
    assert_eq!(body(&response), r#"{"error":"message is required."}"#);
}
