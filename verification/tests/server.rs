use corrodedweb::server::Plan;
use corrodedweb::server::Server;

fn padded(text: &str) -> String {
    let mut s = String::from(text);
    while s.len() < 64 {
        s.push('\u{0}');
    }
    s
}

#[test]
fn a_registered_route_dispatches_to_its_handler_and_no_other() {
    let mut server: Server<i32> = Server::new();
    server.get("/", 1);
    server.get("/other", 2);
    server.post("/", 3);

    match server.route_request(&padded("GET / HTTP/1.1\r\n\r\n")) {
        Plan::Handle(h, _) => assert_eq!(*h, 1),
        _ => panic!("expected the GET / handler"),
    }
    match server.route_request(&padded("GET /other HTTP/1.1\r\n\r\n")) {
        Plan::Handle(h, _) => assert_eq!(*h, 2),
        _ => panic!("expected the GET /other handler"),
    }
    match server.route_request(&padded("POST / HTTP/1.1\r\n\r\n")) {
        Plan::Handle(h, _) => assert_eq!(*h, 3),
        _ => panic!("expected the POST / handler"),
    }
}

#[test]
fn re_registering_a_key_replaces_the_handler() {
    let mut server: Server<i32> = Server::new();
    server.get("/", 1);
    server.get("/", 9);
    match server.route_request(&padded("GET / HTTP/1.1\r\n\r\n")) {
        Plan::Handle(h, _) => assert_eq!(*h, 9),
        _ => panic!("expected the replacing handler"),
    }
}

#[test]
fn the_handler_receives_the_parsed_parameters() {
    let mut server: Server<i32> = Server::new();
    server.get("/", 1);
    match server.route_request(&padded("GET /?param1=hello&param2=1234 HTTP/1.1\r\n\r\n")) {
        Plan::Handle(h, request) => {
            assert_eq!(*h, 1);
            let query = request.get_query_parameters();
            assert_eq!(query.get("param1"), Some(&String::from("hello")));
            assert_eq!(query.get("param2"), Some(&String::from("1234")));
        },
        _ => panic!("expected the GET / handler"),
    }
}

#[test]
fn dispatch_matches_exactly_without_normalization() {
    let mut server: Server<i32> = Server::new();
    server.set_document_root("./www/", true);
    server.get("/route", 1);
    match server.route_request(&padded("GET /route/ HTTP/1.1\r\n\r\n")) {
        Plan::ServeStatic { .. } => {},
        _ => panic!("a trailing slash must miss the route"),
    }
    match server.route_request(&padded("POST /route HTTP/1.1\r\n\r\n")) {
        Plan::ServeStatic { .. } => {},
        _ => panic!("another method must miss the route"),
    }
}

#[test]
fn an_unmatched_path_resolves_against_the_document_root() {
    let mut server: Server<i32> = Server::new();
    assert!(server.set_document_root("./www/", true));
    match server.route_request(&padded("GET /pages/index.html HTTP/1.1\r\n\r\n")) {
        Plan::ServeStatic { fs_path, virtual_path } => {
            assert_eq!(fs_path, "./www/pages/index.html");
            assert_eq!(virtual_path, "pages/index.html");
        },
        _ => panic!("expected the static fallback"),
    }
}

#[test]
fn the_static_fallback_keeps_the_query_in_the_virtual_path() {
    let mut server: Server<i32> = Server::new();
    assert!(server.set_document_root("/root/", true));
    match server.route_request(&padded("GET /file?x=1 HTTP/1.1\r\n\r\n")) {
        Plan::ServeStatic { fs_path, virtual_path } => {
            assert_eq!(fs_path, "/root/file?x=1");
            assert_eq!(virtual_path, "file?x=1");
        },
        _ => panic!("expected the static fallback"),
    }
}

#[test]
fn a_malformed_request_line_is_dropped_silently() {
    let mut server: Server<i32> = Server::new();
    server.set_document_root("./www/", true);
    server.get("GET", 1);
    match server.route_request(&padded("GET")) {
        Plan::Malformed => {},
        _ => panic!("a one-token request line must be dropped"),
    }
}

#[test]
fn without_a_document_root_an_unmatched_path_serves_nothing() {
    let server: Server<i32> = Server::new();
    match server.route_request(&padded("GET /nowhere HTTP/1.1\r\n\r\n")) {
        Plan::NoRoot => {},
        _ => panic!("expected no action without a document root"),
    }
}

#[test]
fn a_rejected_document_root_leaves_the_configuration_unchanged() {
    let mut server: Server<i32> = Server::new();
    assert!(!server.set_document_root("./missing/", false));
    assert_eq!(server.get_document_root(), None);
    assert!(server.set_document_root("./www/", true));
    assert_eq!(server.get_document_root(), Some(String::from("./www/")));
}
