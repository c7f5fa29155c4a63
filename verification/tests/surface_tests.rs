use workpool::config::ConfigBuilder;
use workpool::counter::Counter;
use workpool::generic::operate;
use workpool::http::{build_response, route};
use workpool::summary::{Article, Summary};
use workpool::todo::Todo;

#[test]
fn operate_dispatches_by_name() {
    assert_eq!(operate("add", 2, 3).unwrap(), 5);
    assert_eq!(operate("sub", 2, 3).unwrap(), -1);
    assert_eq!(operate("mul", 4, 6).unwrap(), 24);
    assert_eq!(operate("div", 10, 2).unwrap(), 5);
}

#[test]
fn operate_rejects_bad_input() {
    assert_eq!(operate("div", 1, 0).unwrap_err(), "Cannot divide by zero");
    assert_eq!(operate("pow", 2, 3).unwrap_err(), "Unsupported operation: pow");
}

#[test]
fn route_serves_root_and_falls_back() {
    let (status, file) = route("GET / HTTP/1.1");
    assert_eq!(status, "HTTP/1.1 200 OK");
    assert_eq!(file, "hello.html");
    let (status, file) = route("GET /missing HTTP/1.1");
    assert_eq!(status, "HTTP/1.1 404 NOT FOUND");
    assert_eq!(file, "404.html");
}

#[test]
fn response_carries_exact_content_length() {
    let r = build_response("HTTP/1.1 200 OK", "<h1>Welcome!</h1>");
    assert_eq!(r, "HTTP/1.1 200 OK\r\nContent-Length: 17\r\n\r\n<h1>Welcome!</h1>");
    let empty = build_response("HTTP/1.1 404 NOT FOUND", "");
    assert_eq!(empty, "HTTP/1.1 404 NOT FOUND\r\nContent-Length: 0\r\n\r\n");
}

#[test]
fn builder_assembles_full_config() {
    let config = ConfigBuilder::default()
        .host("127.0.0.1".into())
        .port(8000)
        .use_tls(true)
        .build()
        .unwrap();
    assert_eq!(config.host(), "127.0.0.1");
    assert_eq!(config.port(), 8000);
    assert!(config.use_tls());
}

#[test]
fn builder_names_first_missing_field() {
    assert_eq!(ConfigBuilder::default().build().unwrap_err(), "host is not set");
    assert_eq!(
        ConfigBuilder::default().host("h".into()).build().unwrap_err(),
        "port is not set"
    );
    assert_eq!(
        ConfigBuilder::default().host("h".into()).port(1).build().unwrap_err(),
        "use_tls is not set"
    );
}

#[test]
fn article_summary_lists_its_parts() {
    let a = Article {
        title: "Rust".to_string(),
        author: "Ann".to_string(),
        content: "A dive".to_string(),
    };
    assert_eq!(a.summary(), "A dive into Rust by Ann");
}

#[test]
fn counter_counts_and_resets() {
    let mut c = Counter::new();
    assert_eq!(c.get(), 0);
    c.increment();
    c.increment();
    assert_eq!(c.get(), 2);
    c.reset();
    assert_eq!(c.get(), 0);
}

#[test]
fn new_todo_starts_uncompleted() {
    let t = Todo::new(7, "water the plants".to_string());
    assert_eq!(t.id, 7);
    assert_eq!(t.title, "water the plants");
    assert!(!t.completed);
}
