use valor::handler::{
    answer_not_found, decorate, endpoint_step, forward, read_request_id, turn, EndpointStep, Turn,
};
use valor::{Capability, Method, Plugin, Request, Response};

#[test]
fn new_request_is_bare() {
    let request = Request::new(Method::Post, "/a/b");
    assert_eq!(request.method(), Method::Post);
    assert_eq!(request.path(), "/a/b");
    assert_eq!(request.header("x-request-id"), None);
    assert!(request.body().is_empty());
}

#[test]
fn header_is_replaced_not_added() {
    let mut request = Request::new(Method::Get, "/");
    request.insert_header("a", "1");
    request.insert_header("b", "2");
    request.insert_header("a", "3");
    assert_eq!(request.header("a"), Some("3"));
    assert_eq!(request.header("b"), Some("2"));
    assert_eq!(request.header("A"), Some("3"));
    assert_eq!(request.header("c"), None);
    let mut response = Response::new(204);
    response.insert_header("a", "1");
    response.insert_header("a", "");
    assert_eq!(response.header("a"), Some(""));
    assert_eq!(response.status(), 204);
}

#[test]
fn body_and_path_are_replaced() {
    let mut request = Request::new(Method::Put, "/old");
    request.insert_header("h", "v");
    request.set_path("/new");
    request.set_body(vec![1, 2, 3]);
    assert_eq!(request.path(), "/new");
    assert_eq!(request.body(), &vec![1, 2, 3]);
    assert_eq!(request.header("h"), Some("v"));
    assert_eq!(request.method(), Method::Put);
    let mut response = Response::with_message(500, "héllo");
    assert_eq!(response.body().as_slice(), "héllo".as_bytes());
    response.set_body(Vec::new());
    assert!(response.body().is_empty());
    assert_eq!(response.status(), 500);
}

#[test]
fn request_id_is_read_from_its_header() {
    let mut request = Request::new(Method::Get, "/");
    let refused = read_request_id(&request).unwrap_err();
    assert_eq!(refused.status(), 400);
    assert_eq!(refused.body().as_slice(), b"Missing request ID");
    request.insert_header("x-request-id", "abc");
    assert_eq!(read_request_id(&request).unwrap(), "abc");
    request.insert_header("x-request-id", "");
    assert_eq!(read_request_id(&request).unwrap(), "");
}

#[test]
fn not_found_carries_the_identifier() {
    let response = answer_not_found("z1");
    assert_eq!(response.status(), 404);
    assert_eq!(response.header("x-correlation-id"), Some("z1"));
    assert!(response.body().is_empty());
}

#[test]
fn forward_cuts_the_prefix() {
    let path = |path: &str, prefix: &str| -> String {
        let mut request = Request::new(Method::Delete, path);
        request.insert_header("k", "v");
        request.set_body(vec![9]);
        let forwarded = forward(request, prefix);
        assert_eq!(forwarded.method(), Method::Delete);
        assert_eq!(forwarded.header("k"), Some("v"));
        assert_eq!(forwarded.body(), &vec![9]);
        forwarded.path().to_string()
    };
    assert_eq!(path("/echo/a/b", "echo"), "/a/b");
    assert_eq!(path("/echo", "echo"), "/");
    assert_eq!(path("/echo/", "echo"), "/");
    assert_eq!(path("//a/b/c", "a/b"), "/c");
    assert_eq!(path("/é/ü", "é"), "/ü");
    assert_eq!(path("/ab", "abcdef"), "/");
    assert_eq!(path("", ""), "/");
}

#[test]
fn decorate_sets_both_headers() {
    let mut raw = Response::with_message(418, "tea");
    raw.insert_header("x-valor-plugin", "mine");
    raw.insert_header("content-type", "text/plain");
    let response = decorate(raw, "id-1", "teapot");
    assert_eq!(response.status(), 418);
    assert_eq!(response.body().as_slice(), b"tea");
    assert_eq!(response.header("x-valor-plugin"), Some("teapot"));
    assert_eq!(response.header("x-correlation-id"), Some("id-1"));
    assert_eq!(response.header("content-type"), Some("text/plain"));
}

#[test]
fn header_names_do_not_tell_case_apart() {
    let mut request = Request::new(Method::Get, "/");
    request.insert_header("X-Request-Id", "abc");
    assert_eq!(request.header("x-request-id"), Some("abc"));
    assert_eq!(request.header("X-REQUEST-ID"), Some("abc"));
    assert_eq!(read_request_id(&request).unwrap(), "abc");
    request.insert_header("x-request-ID", "def");
    assert_eq!(request.headers(), vec![("x-request-id".to_string(), "def".to_string())]);
    request.insert_header("Straße-É", "v");
    assert_eq!(request.header("straße-É"), Some("v"));
    assert_eq!(request.header("strasse-é"), None);
    let mut response = Response::new(200);
    response.insert_header("X-Valor-Plugin", "mine");
    response.insert_header("Content-Type", "text/plain");
    let response = decorate(response, "1", "real");
    assert_eq!(response.header("X-Valor-Plugin"), Some("real"));
    assert_eq!(response.header("content-type"), Some("text/plain"));
    assert_eq!(response.headers().len(), 3);
}

#[test]
fn turn_follows_the_capability() {
    let health: Capability<u8> = Capability::Health;
    match turn(&health) {
        Turn::Answer(response) => {
            assert_eq!(response.status(), 200);
            assert!(response.body().is_empty());
            assert!(response.headers().is_empty());
        }
        other => panic!("{:?}", other),
    }
    assert!(matches!(turn(&Capability::Plugin(9u8)), Turn::Call(&9)));
    assert!(matches!(turn(&Capability::<u8>::Registry), Turn::Endpoint));
}

#[test]
fn endpoint_step_follows_method_and_body() {
    let body = br#"{"type":"native","name":"n"}"#;
    assert!(matches!(endpoint_step(Method::Get, body), EndpointStep::List));
    assert!(matches!(endpoint_step(Method::Get, b"junk"), EndpointStep::List));
    match endpoint_step(Method::Post, body) {
        EndpointStep::Load(plugin) => {
            assert_eq!(plugin, Plugin::Native { name: "n".to_string(), path: None, prefix: None })
        }
        other => panic!("{:?}", other),
    }
    assert!(matches!(endpoint_step(Method::Post, b"junk"), EndpointStep::Refuse(400)));
    assert!(matches!(endpoint_step(Method::Post, b""), EndpointStep::Refuse(400)));
    for method in [Method::Put, Method::Delete, Method::Head, Method::Patch, Method::Options, Method::Other] {
        assert!(matches!(endpoint_step(method, body), EndpointStep::Refuse(405)));
    }
}
