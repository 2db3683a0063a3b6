use webserver::server::Server;
use webserver::server_error::ServerError;
use webserver::request::uri_from_request;
use webserver::response::Response;
use webserver::response::StatusCode;
use webserver::resolver::ResolvePhase;
use webserver::resolver::ResolveStep;
use webserver::dispatch::AcceptLoop;
use webserver::dispatch::ConsoleAction;
use webserver::dispatch::DirectDispatcher;
use webserver::dispatch::ListenerAction;
use webserver::dispatch::ListenerEvent;
use webserver::dispatch::PoolDispatcher;
use webserver::dispatch::console_decision;
use webserver::dispatch::is_quit_command;

fn args(list: &[&str]) -> Vec<String> {
    list.iter().map(|s| s.to_string()).collect()
}

fn server(root: &str, aliases: &[(&str, &str)]) -> Server {
    Server {
        root: root.to_string(),
        port: 7878,
        worker_count: 10,
        aliases: aliases.iter().map(|(a, c)| (a.to_string(), c.to_string())).collect(),
    }
}

#[test]
fn serialize_ok_hello_round_trip() {
    let r = Response::new(StatusCode::Okay, "OK", "hello");
    assert_eq!(r.serialize(), "HTTP/1.1 200 OK\r\n\r\nhello");
}

#[test]
fn serialize_not_found() {
    let r = Response::new(StatusCode::NotFound, "NOT_FOUND", "Error: 404 not found");
    assert_eq!(r.serialize(), "HTTP/1.1 404 NOT_FOUND\r\n\r\nError: 404 not found");
}

#[test]
fn response_clone_keeps_fields() {
    let r = Response::new(StatusCode::Okay, "OK", "body");
    let c = r.clone();
    assert_eq!(c.code, StatusCode::Okay);
    assert_eq!(c.phrase, "OK");
    assert_eq!(c.message, "body");
}

#[test]
fn parses_uri_from_request_line() {
    let req = "GET /index.html HTTP/1.1\r\nHost: localhost\r\n\r\n";
    assert_eq!(uri_from_request(req), Some("/index.html".to_string()));
}

#[test]
fn malformed_request_single_token_is_dropped() {
    assert_eq!(uri_from_request("justonetoken"), None);
}

#[test]
fn malformed_request_empty_buffer_is_dropped() {
    assert_eq!(uri_from_request(""), None);
    let zeros = String::from_utf8_lossy(&[0u8; 16]).to_string();
    assert_eq!(uri_from_request(&zeros), None);
}

#[test]
fn request_line_is_tokenized_on_whitespace() {
    assert_eq!(uri_from_request("GET /a "), Some("/a".to_string()));
    assert_eq!(uri_from_request("GET\t/x"), Some("/x".to_string()));
    assert_eq!(uri_from_request("GET  /x"), Some("/x".to_string()));
    assert_eq!(uri_from_request("  GET /x"), Some("/x".to_string()));
}

#[test]
fn only_the_first_line_is_parsed() {
    assert_eq!(uri_from_request("a\nb c"), None);
    assert_eq!(uri_from_request("GET\n/x later words"), None);
    assert_eq!(uri_from_request("GET /x\nHost: a b"), Some("/x".to_string()));
}

#[test]
fn one_token_first_line_is_malformed() {
    assert_eq!(uri_from_request("GET "), None);
    assert_eq!(uri_from_request("GET\r\nHost: a b"), None);
}

#[test]
fn default_configuration() {
    let srv = Server::new(&args(&[])).unwrap();
    assert_eq!(srv.root, "/var/www/html/");
    assert_eq!(srv.port, 7878);
    assert_eq!(srv.worker_count, 10);
    assert!(srv.aliases.is_empty());
}

#[test]
fn configuration_from_flags() {
    let srv = Server::new(&args(&[
        "--root=web/",
        "--port=8080",
        "--alias=index.html,index,home",
        "--thread=4",
    ]))
    .unwrap();
    assert_eq!(srv.root, "web/");
    assert_eq!(srv.port, 8080);
    assert_eq!(srv.worker_count, 4);
    assert_eq!(
        srv.aliases,
        vec![
            ("index".to_string(), "index.html".to_string()),
            ("home".to_string(), "index.html".to_string()),
        ]
    );
}

#[test]
fn port_errors_are_told_apart() {
    assert_eq!(Server::new(&args(&["--port=abc"])).unwrap_err(), ServerError::PortParse);
    assert_eq!(
        Server::new(&args(&["--port=99999999999"])).unwrap_err(),
        ServerError::PortParse
    );
    assert_eq!(Server::new(&args(&["--port=70000"])).unwrap_err(), ServerError::PortRange);
    assert_eq!(Server::new(&args(&["--port=-1"])).unwrap_err(), ServerError::PortRange);
}

#[test]
fn invalid_arguments_are_refused() {
    assert_eq!(Server::new(&args(&["-p=1"])).unwrap_err(), ServerError::InvalidArgs);
    assert_eq!(Server::new(&args(&["--bogus=1"])).unwrap_err(), ServerError::InvalidArgs);
    assert_eq!(Server::new(&args(&["--rootless"])).unwrap_err(), ServerError::InvalidArgs);
    assert_eq!(Server::new(&args(&["--thread=0"])).unwrap_err(), ServerError::InvalidArgs);
    assert_eq!(Server::new(&args(&["--thread=abc"])).unwrap_err(), ServerError::InvalidArgs);
}

#[test]
fn help_is_not_an_error_but_stops_construction() {
    assert_eq!(Server::new(&args(&["--help"])).unwrap_err(), ServerError::HelpRequest);
    assert_eq!(
        Server::new(&args(&["--root=x", "--help", "--port=abc"])).unwrap_err(),
        ServerError::HelpRequest
    );
}

#[test]
fn later_alias_entry_overrides_earlier() {
    let srv = Server::new(&args(&["--alias=a.html,x", "--alias=b.html,x"])).unwrap();
    assert_eq!(srv.lookup_alias("x"), Some("b.html".to_string()));
}

#[test]
fn error_messages() {
    assert_eq!(ServerError::InvalidArgs.message(), "Invalid arguments");
    assert_eq!(ServerError::PortParse.message(), "Failed to parse port");
    assert_eq!(ServerError::PortRange.message(), "Port outside of valid range");
}

#[test]
fn existing_file_is_served_with_its_contents() {
    let srv = server("web", &[]);
    let step = srv.resolve_begin("/hello.txt");
    match step {
        ResolveStep::Read(phase, path) => {
            assert_eq!(phase, ResolvePhase::Direct);
            assert_eq!(path, "web/hello.txt");
            match srv.resolve_next("/hello.txt", phase, Some("hi!".to_string())) {
                ResolveStep::Done(r) => {
                    assert_eq!(r.code, StatusCode::Okay);
                    assert_eq!(r.phrase, "OK");
                    assert_eq!(r.message, "hi!");
                }
                ResolveStep::Read(..) => panic!("expected a response"),
            }
        }
        ResolveStep::Done(..) => panic!("expected a read"),
    }
}

#[test]
fn root_request_reads_index_html() {
    let srv = server("web", &[]);
    let for_root = srv.resolve_begin("/");
    let for_index = srv.resolve_begin("/index.html");
    match (for_root, for_index) {
        (ResolveStep::Read(p1, path1), ResolveStep::Read(p2, path2)) => {
            assert_eq!(p1, ResolvePhase::Direct);
            assert_eq!(p2, ResolvePhase::Direct);
            assert_eq!(path1, "web/index.html");
            assert_eq!(path1, path2);
        }
        _ => panic!("expected reads"),
    }
}

#[test]
fn alias_serves_canonical_file() {
    let srv = server("web/", &[("home", "index.html")]);
    let step = srv.resolve_next("/home", ResolvePhase::Direct, None);
    match step {
        ResolveStep::Read(phase, path) => {
            assert_eq!(phase, ResolvePhase::Alias);
            assert_eq!(path, "web/index.html");
            match srv.resolve_next("/home", phase, Some("<html>".to_string())) {
                ResolveStep::Done(r) => {
                    assert_eq!(r.code, StatusCode::Okay);
                    assert_eq!(r.message, "<html>");
                }
                ResolveStep::Read(..) => panic!("expected a response"),
            }
        }
        ResolveStep::Done(..) => panic!("expected the alias read"),
    }
}

#[test]
fn nothing_matches_gives_static_not_found() {
    let srv = server("web", &[]);
    let step = srv.resolve_next("/missing", ResolvePhase::Direct, None);
    match step {
        ResolveStep::Read(phase, path) => {
            assert_eq!(phase, ResolvePhase::RootFallback);
            assert_eq!(path, "web");
            match srv.resolve_next("/missing", phase, None) {
                ResolveStep::Done(r) => {
                    assert_eq!(r.code, StatusCode::NotFound);
                    assert_eq!(r.phrase, "NOT_FOUND");
                    assert_eq!(r.message, "Error: 404 not found");
                }
                ResolveStep::Read(..) => panic!("expected a response"),
            }
        }
        ResolveStep::Done(..) => panic!("expected the root fallback read"),
    }
}

#[test]
fn readable_root_gives_content_bearing_not_found() {
    let srv = server("web", &[]);
    match srv.resolve_next("/missing", ResolvePhase::RootFallback, Some("root page".to_string()))
    {
        ResolveStep::Done(r) => {
            assert_eq!(r.code, StatusCode::NotFound);
            assert_eq!(r.message, "root page");
        }
        ResolveStep::Read(..) => panic!("expected a response"),
    }
}

#[test]
fn quit_command_is_trimmed_and_case_insensitive() {
    assert!(is_quit_command("quit"));
    assert!(is_quit_command("QUIT"));
    assert!(is_quit_command("  Quit \n"));
    assert!(!is_quit_command("quite"));
    assert!(!is_quit_command(""));
    assert!(!is_quit_command("q u i t"));
}

#[test]
fn console_signals_shutdown_on_quit_or_read_failure() {
    assert_eq!(console_decision(true, "quit\n"), ConsoleAction::SignalShutdown);
    assert_eq!(console_decision(false, ""), ConsoleAction::SignalShutdown);
    assert_eq!(console_decision(true, "hello"), ConsoleAction::KeepReading);
}

#[test]
fn shutdown_stops_accepting_but_earlier_events_were_served() {
    let mut l = AcceptLoop::new();
    assert_eq!(l.step(ListenerEvent::Accepted), ListenerAction::Dispatch);
    assert_eq!(l.step(ListenerEvent::AcceptFailed), ListenerAction::Continue);
    assert!(!l.terminated);
    assert_eq!(l.step(ListenerEvent::Shutdown), ListenerAction::Stop);
    assert!(l.terminated);
}

#[test]
fn pool_never_handles_more_than_worker_count() {
    let mut pool = PoolDispatcher::new(2);
    pool.enqueue(1);
    pool.enqueue(2);
    pool.enqueue(3);
    assert_eq!(pool.start_next(), Some(1));
    assert_eq!(pool.start_next(), Some(2));
    assert_eq!(pool.start_next(), None);
    assert_eq!(pool.active, 2);
    pool.finish();
    assert_eq!(pool.start_next(), Some(3));
    assert_eq!(pool.active, 2);
    assert_eq!(pool.start_next(), None);
}

#[test]
fn direct_dispatch_services_in_accept_order() {
    let mut d = DirectDispatcher::new();
    d.accept(7);
    assert_eq!(d.current, Some(7));
    d.complete();
    assert_eq!(d.current, None);
    d.accept(9);
    d.complete();
    assert_eq!(d.accepted, vec![7, 9]);
    assert_eq!(d.done, 2);
}
