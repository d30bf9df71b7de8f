use jsonrpc_core::{Call, Id, Request};
use jsonrpc_http_server::admission::{CorsPolicy, HostWhitelist};
use jsonrpc_http_server::client::{invalid_host, invalid_request, method_not_found, read_response, world, world_batch};
use jsonrpc_http_server::connection::{serve_hosts, ServerPolicy};
use jsonrpc_http_server::envelope::{is_well_formed, parse, Reply};
use jsonrpc_http_server::session::{Connection, Step};

const PORT: u16 = 8545;

fn bound() -> Vec<Vec<u8>> {
    vec![format!("127.0.0.1:{}", PORT).into_bytes()]
}

fn serve() -> ServerPolicy {
    ServerPolicy {
        hosts: HostWhitelist::AllowAll,
        cors: CorsPolicy::AllowOnly(vec![b"ethcore.io".to_vec()]),
    }
}

fn immediate_world() -> Reply {
    futures::executor::block_on(futures::future::ready(Reply::Value(b"\"world\"".to_vec())))
}

// The result is produced by one future and received through a channel by
// another, the two driven together.
fn delayed_world() -> Reply {
    let (tx, rx) = futures::channel::oneshot::channel::<Vec<u8>>();
    let producer = async move {
        let _ = tx.send(b"\"world\"".to_vec());
    };
    let (_, got) = futures::executor::block_on(futures::future::join(producer, rx));
    match got {
        Ok(v) => Reply::Value(v),
        Err(_) => Reply::Fault,
    }
}

fn lookup(name: &str) -> Reply {
    match name {
        "hello" => Reply::Value(b"\"world\"".to_vec()),
        "hello_async" => immediate_world(),
        "hello_async2" => delayed_world(),
        _ => Reply::NoSuchMethod,
    }
}

fn reply_for(call: &Call) -> Reply {
    match call {
        Call::MethodCall(m) => lookup(&m.method),
        Call::Notification(n) => lookup(&n.method),
        Call::Invalid { .. } => Reply::Fault,
    }
}

// Feeds the request to a connection in two reads and runs what it asks for.
fn exchange(policy: &ServerPolicy, raw: &str) -> Vec<u8> {
    let bytes = raw.as_bytes();
    let mid = bytes.len() / 2;
    let mut conn = Connection::new();
    for piece in [&bytes[..mid], &bytes[mid..]] {
        match conn.on_data(policy, &bound(), &vec![PORT], piece) {
            Step::ReadMore => continue,
            Step::Close => panic!("connection closed"),
            Step::Send(out) => return out,
            Step::Dispatch(body) => {
                let req: Option<Request> = std::str::from_utf8(&body).ok().and_then(|s| parse(s));
                let replies: Vec<Reply> = if is_well_formed(&req) {
                    match &req {
                        Some(Request::Single(c)) => vec![reply_for(c)],
                        Some(Request::Batch(v)) => v.iter().map(reply_for).collect(),
                        None => vec![],
                    }
                } else {
                    vec![]
                };
                match conn.finish(&req, &replies) {
                    Step::Send(out) => return out,
                    _ => panic!("no response"),
                }
            }
        }
    }
    panic!("request incomplete")
}

struct Response {
    status: String,
    headers: String,
    body: String,
}

fn request(policy: ServerPolicy, raw: &str) -> Response {
    let r = read_response(&exchange(&policy, raw));
    Response {
        status: String::from_utf8(r.status).unwrap(),
        headers: String::from_utf8(r.headers).unwrap(),
        body: String::from_utf8(r.body).unwrap(),
    }
}

fn post(host: Option<&str>, origin: Option<&str>, req: &str) -> String {
    let mut s = String::from("POST / HTTP/1.1\r\n");
    if let Some(h) = host {
        s.push_str(&format!("Host: {}\r\n", h));
    }
    if let Some(o) = origin {
        s.push_str(&format!("Origin: {}\r\n", o));
    }
    s.push_str(&format!(
        "Connection: close\r\nContent-Type: application/json\r\nContent-Length: {}\r\n\r\n{}\r\n",
        req.as_bytes().len(),
        req
    ));
    s
}

fn invalid_host_body() -> String {
    String::from_utf8(invalid_host()).unwrap()
}

fn invalid_request_body() -> String {
    String::from_utf8(invalid_request()).unwrap()
}

// The value layer echoes a string id as a string.
fn method_not_found_body() -> String {
    "5C\n{\"jsonrpc\":\"2.0\",\"error\":{\"code\":-32601,\"message\":\"Method not found\",\"data\":null},\"id\":\"1\"}\n".into()
}

fn world_body() -> String {
    "2C\n{\"jsonrpc\":\"2.0\",\"result\":\"world\",\"id\":\"1\"}\n".into()
}

fn world_batch_body() -> String {
    "2E\n[{\"jsonrpc\":\"2.0\",\"result\":\"world\",\"id\":\"1\"}]\n".into()
}

const X: &str = r#"{"jsonrpc":"2.0","id":"1","method":"x"}"#;

#[test]
fn should_return_method_not_allowed_for_get() {
    let response = request(
        serve(),
        "GET / HTTP/1.1\r\nHost: 127.0.0.1:8080\r\nConnection: close\r\n\r\nI shouldn't be read.\r\n",
    );
    assert_eq!(response.status, "HTTP/1.1 405 Method Not Allowed".to_owned());
    assert_eq!(
        response.body,
        "3D\nUsed HTTP Method is not allowed. POST or OPTIONS is required\n".to_owned()
    );
}

#[test]
fn should_return_unsupported_media_type_if_not_json() {
    let response = request(
        serve(),
        "POST / HTTP/1.1\r\nHost: 127.0.0.1:8080\r\nConnection: close\r\n\r\n{}\r\n",
    );
    assert_eq!(response.status, "HTTP/1.1 415 Unsupported Media Type".to_owned());
    assert_eq!(
        response.body,
        "51\nSupplied content type is not allowed. Content-Type: application/json is required\n"
            .to_owned()
    );
}

#[test]
fn should_return_error_for_malformed_request() {
    let response = request(serve(), &post(Some("127.0.0.1:8080"), None, r#"{"jsonrpc":"3.0","method":"x"}"#));
    assert_eq!(response.status, "HTTP/1.1 200 OK".to_owned());
    assert_eq!(response.body, invalid_request_body());
}

#[test]
fn should_return_error_for_malformed_request2() {
    let response = request(serve(), &post(Some("127.0.0.1:8080"), None, r#"{"jsonrpc":"2.0","metho1d":""}"#));
    assert_eq!(response.status, "HTTP/1.1 200 OK".to_owned());
    assert_eq!(response.body, invalid_request_body());
}

#[test]
fn should_return_empty_response_for_notification() {
    let response = request(serve(), &post(Some("127.0.0.1:8080"), None, r#"{"jsonrpc":"2.0","method":"x"}"#));
    assert_eq!(response.status, "HTTP/1.1 200 OK".to_owned());
    assert_eq!(response.body, "0\n".to_owned());
}

#[test]
fn should_return_method_not_found() {
    let response = request(serve(), &post(Some("127.0.0.1:8080"), None, X));
    assert_eq!(response.status, "HTTP/1.1 200 OK".to_owned());
    assert_eq!(response.body, method_not_found_body());
}

#[test]
fn should_add_cors_headers() {
    let response = request(serve(), &post(Some("127.0.0.1:8080"), Some("ethcore.io"), X));
    assert_eq!(response.status, "HTTP/1.1 200 OK".to_owned());
    assert_eq!(response.body, method_not_found_body());
    assert!(
        response.headers.contains("Access-Control-Allow-Origin: ethcore.io"),
        "Headers missing in {}",
        response.headers
    );
}

#[test]
fn should_not_add_cors_headers() {
    let response = request(serve(), &post(Some("127.0.0.1:8080"), Some("fake.io"), X));
    assert_eq!(response.status, "HTTP/1.1 200 OK".to_owned());
    assert_eq!(response.body, method_not_found_body());
    assert!(!response.headers.contains("Access-Control-Allow-Origin"));
}

#[test]
fn should_reject_invalid_hosts() {
    let response = request(serve_hosts(vec![b"ethcore.io".to_vec()]), &post(Some("127.0.0.1:8080"), None, X));
    assert_eq!(response.status, "HTTP/1.1 403 Forbidden".to_owned());
    assert_eq!(response.body, invalid_host_body());
}

#[test]
fn should_reject_missing_host() {
    let response = request(serve_hosts(vec![b"ethcore.io".to_vec()]), &post(None, None, X));
    assert_eq!(response.status, "HTTP/1.1 403 Forbidden".to_owned());
    assert_eq!(response.body, invalid_host_body());
}

#[test]
fn should_allow_if_host_is_valid() {
    let response = request(serve_hosts(vec![b"ethcore.io".to_vec()]), &post(Some("ethcore.io"), None, X));
    assert_eq!(response.status, "HTTP/1.1 200 OK".to_owned());
    assert_eq!(response.body, method_not_found_body());
}

#[test]
fn should_always_allow_the_bind_address() {
    let addr = format!("127.0.0.1:{}", PORT);
    let response = request(serve_hosts(vec![b"ethcore.io".to_vec()]), &post(Some(&addr), None, X));
    assert_eq!(response.status, "HTTP/1.1 200 OK".to_owned());
    assert_eq!(response.body, method_not_found_body());
}

#[test]
fn should_always_allow_the_bind_address_as_localhost() {
    let host = format!("localhost:{}", PORT);
    let response = request(serve_hosts(vec![]), &post(Some(&host), None, X));
    assert_eq!(response.status, "HTTP/1.1 200 OK".to_owned());
    assert_eq!(response.body, method_not_found_body());
}

#[test]
fn should_handle_sync_requests_correctly() {
    let host = format!("localhost:{}", PORT);
    let response = request(serve(), &post(Some(&host), None, r#"{"jsonrpc":"2.0","id":"1","method":"hello"}"#));
    assert_eq!(response.status, "HTTP/1.1 200 OK".to_owned());
    assert_eq!(response.body, world_body());
}

#[test]
fn should_handle_async_requests_with_immediate_response_correctly() {
    let host = format!("localhost:{}", PORT);
    let response = request(serve(), &post(Some(&host), None, r#"{"jsonrpc":"2.0","id":"1","method":"hello_async"}"#));
    assert_eq!(response.status, "HTTP/1.1 200 OK".to_owned());
    assert_eq!(response.body, world_body());
}

#[test]
fn should_handle_async_requests_correctly() {
    let host = format!("localhost:{}", PORT);
    let response = request(serve(), &post(Some(&host), None, r#"{"jsonrpc":"2.0","id":"1","method":"hello_async2"}"#));
    assert_eq!(response.status, "HTTP/1.1 200 OK".to_owned());
    assert_eq!(response.body, world_body());
}

#[test]
fn should_handle_sync_batch_requests_correctly() {
    let host = format!("localhost:{}", PORT);
    let response = request(serve(), &post(Some(&host), None, r#"[{"jsonrpc":"2.0","id":"1","method":"hello"}]"#));
    assert_eq!(response.status, "HTTP/1.1 200 OK".to_owned());
    assert_eq!(response.body, world_batch_body());
}

#[test]
fn numeric_id_single_call_is_one_chunk_of_2a() {
    let response = request(serve(), &post(Some("127.0.0.1:8080"), None, r#"{"jsonrpc":"2.0","id":1,"method":"hello"}"#));
    assert_eq!(response.status, "HTTP/1.1 200 OK");
    assert_eq!(response.body, "2A\n{\"jsonrpc\":\"2.0\",\"result\":\"world\",\"id\":1}\n");
    assert_eq!(response.body.as_bytes(), &world()[..]);
}

#[test]
fn numeric_id_batch_is_one_chunk_of_2c() {
    let response = request(serve(), &post(Some("127.0.0.1:8080"), None, r#"[{"jsonrpc":"2.0","id":1,"method":"hello"}]"#));
    assert_eq!(response.body, "2C\n[{\"jsonrpc\":\"2.0\",\"result\":\"world\",\"id\":1}]\n");
    assert_eq!(response.body.as_bytes(), &world_batch()[..]);
}

#[test]
fn parse_reads_method_and_id() {
    match parse(r#"{"jsonrpc":"2.0","id":7,"method":"m"}"#) {
        Some(Request::Single(Call::MethodCall(m))) => {
            assert_eq!(m.method, "m");
            assert_eq!(m.id, Id::Num(7));
        }
        other => panic!("unexpected {:?}", other),
    }
    assert!(parse("{").is_none());
}

#[test]
fn numeric_id_unknown_method_is_5a() {
    let response = request(serve(), &post(Some("127.0.0.1:8080"), None, r#"{"jsonrpc":"2.0","id":1,"method":"x"}"#));
    assert_eq!(response.status, "HTTP/1.1 200 OK");
    assert_eq!(response.body.as_bytes(), &method_not_found()[..]);
}
