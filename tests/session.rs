use jsonrpc_http_server::admission::{CorsPolicy, HostWhitelist};
use jsonrpc_http_server::connection::ServerPolicy;
use jsonrpc_http_server::envelope::{parse, Reply};
use jsonrpc_http_server::session::{Connection, Phase, Step};

fn policy() -> ServerPolicy {
    ServerPolicy {
        hosts: HostWhitelist::AllowOnly(vec![b"ethcore.io".to_vec()]),
        cors: CorsPolicy::AllowOnly(vec![b"ethcore.io".to_vec()]),
    }
}

fn bound() -> Vec<Vec<u8>> {
    vec![b"127.0.0.1:4000".to_vec()]
}

#[test]
fn session_reads_head_and_body_in_pieces() {
    let p = policy();
    let mut c = Connection::new();
    let body = r#"{"jsonrpc":"2.0","id":2,"method":"hello"}"#;
    let head = format!(
        "POST / HTTP/1.1\r\nHost: localhost:4000\r\nOrigin: ethcore.io\r\nContent-Type: application/json\r\nContent-Length: {}\r\n",
        body.len()
    );
    assert!(matches!(c.on_data(&p, &bound(), &vec![4000], head.as_bytes()), Step::ReadMore));
    assert!(matches!(c.phase, Phase::Head));
    assert!(matches!(c.on_data(&p, &bound(), &vec![4000], b"\r\n{\"json"), Step::ReadMore));
    assert!(matches!(c.phase, Phase::Body { wanted, .. } if wanted == body.len()));
    let rest = &body.as_bytes()[6..];
    let got = match c.on_data(&p, &bound(), &vec![4000], rest) {
        Step::Dispatch(b) => b,
        _ => panic!("no dispatch"),
    };
    assert_eq!(got, body.as_bytes().to_vec());
    let req = parse(std::str::from_utf8(&got).unwrap());
    let out = match c.finish(&req, &vec![Reply::Value(b"\"world\"".to_vec())]) {
        Step::Send(b) => String::from_utf8(b).unwrap(),
        _ => panic!("no response"),
    };
    assert!(out.starts_with("HTTP/1.1 200 OK\r\n"));
    assert!(out.contains("Access-Control-Allow-Origin: ethcore.io\r\n"));
    assert!(out.ends_with("\r\n\r\n2A\r\n{\"jsonrpc\":\"2.0\",\"result\":\"world\",\"id\":2}\n\r\n0\r\n\r\n"));
    assert!(matches!(c.phase, Phase::Closed));
    assert!(matches!(c.on_data(&p, &bound(), &vec![4000], b"more"), Step::Close));
}

#[test]
fn session_refuses_foreign_host_without_reading_body() {
    let p = policy();
    let mut c = Connection::new();
    let req = b"POST / HTTP/1.1\r\nHost: evil.io\r\nContent-Type: application/json\r\nContent-Length: 100\r\n\r\n";
    match c.on_data(&p, &bound(), &vec![4000], req) {
        Step::Send(b) => {
            let t = String::from_utf8(b).unwrap();
            assert!(t.starts_with("HTTP/1.1 403 Forbidden\r\n"));
            assert!(t.ends_with("29\r\nProvided Host header is not whitelisted.\n\r\n0\r\n\r\n"));
        }
        _ => panic!("not refused"),
    }
    assert!(matches!(c.phase, Phase::Closed));
}

#[test]
fn session_closes_on_bad_length_or_endless_head() {
    let p = policy();
    let mut c = Connection::new();
    let req = b"POST / HTTP/1.1\r\nHost: ethcore.io\r\nContent-Type: application/json\r\nContent-Length: x\r\n\r\n";
    assert!(matches!(c.on_data(&p, &bound(), &vec![4000], req), Step::Close));
    let mut c = Connection::new();
    let junk = vec![b'a'; 70000];
    assert!(matches!(c.on_data(&p, &bound(), &vec![4000], &junk), Step::Close));
}
