use planner::server::{content_type_for, ok_response, parse_request_line, static_file_for};

#[test]
fn request_line_parts() {
    assert_eq!(parse_request_line("GET /index.html HTTP/1.1"), Some(("GET", "/index.html", "HTTP/1.1")));
    assert_eq!(parse_request_line("GET /"), None);
}

#[test]
fn static_files_and_types() {
    assert_eq!(static_file_for("/"), ("static/index.html".to_string(), "text/html"));
    assert_eq!(static_file_for("/app.js"), ("static//app.js".to_string(), "text/javascript"));
    assert_eq!(static_file_for("/page.html"), ("static//page.html".to_string(), "text/html"));
    assert_eq!(static_file_for("/style.css"), ("static//style.css".to_string(), "?"));
    assert_eq!(static_file_for("/README"), ("static//README".to_string(), "?"));
    assert_eq!(content_type_for(Some("js")), "text/javascript");
    assert_eq!(content_type_for(None), "?");
}

#[test]
fn response_counts_bytes() {
    assert_eq!(
        ok_response("text/html", "héllo"),
        "HTTP/1.1 200 OK\r\nContent-Length: 6\r\nContent-Type: text/html\r\n\r\nhéllo"
    );
}
