use diy_web_server::http::{
    answer, request_target, response, route, separates, status_line, Answer, Route, Status,
    SLEEP_SECS,
};

fn second_of_three_words_after_get(line: &str) -> Option<&str> {
    let parts: Vec<&str> = line.split_whitespace().collect();
    if parts.len() >= 3 && parts[0] == "GET" {
        Some(parts[1])
    } else {
        None
    }
}

#[test]
fn separators_are_the_white_space_characters() {
    for code in 0..=0x10FFFFu32 {
        if let Some(c) = char::from_u32(code) {
            assert_eq!(separates(c), c.is_whitespace(), "U+{:04X}", code);
        }
    }
}

#[test]
fn get_request_yields_its_target() {
    assert_eq!(request_target("GET / HTTP/1.1"), Some("/"));
    assert_eq!(request_target("GET /sleep HTTP/1.1"), Some("/sleep"));
    assert_eq!(request_target("GET /about HTTP/1.1\r"), Some("/about"));
    assert_eq!(request_target("  GET \t /x   HTTP/1.1  "), Some("/x"));
    assert_eq!(request_target("GET /a b c d"), Some("/a"));
    assert_eq!(request_target("GET\u{a0}/caf\u{e9}\u{2003}HTTP/1.1"), Some("/caf\u{e9}"));
}

#[test]
fn other_lines_yield_nothing() {
    assert_eq!(request_target(""), None);
    assert_eq!(request_target("   \t "), None);
    assert_eq!(request_target("GET"), None);
    assert_eq!(request_target("GET /"), None);
    assert_eq!(request_target("GET /  "), None);
    assert_eq!(request_target("POST / HTTP/1.1"), None);
    assert_eq!(request_target("get / HTTP/1.1"), None);
    assert_eq!(request_target("GETS / HTTP/1.1"), None);
    assert_eq!(request_target("GE / HTTP/1.1"), None);
    assert_eq!(request_target("GET/ HTTP/1.1 x"), None);
    assert_eq!(request_target("/ GET HTTP/1.1"), None);
}

#[test]
fn request_target_agrees_with_splitting_at_white_space() {
    let pieces = ["GET", "get", "/", "/sleep", "HTTP/1.1", "", "x", "G", "GE", "T", "/\u{e9}"];
    let gaps = [" ", "", "\t", "  ", "\r\n", "\u{85}", "\u{1680}", "\u{200a}", "\u{200b}"];
    for a in pieces {
        for b in pieces {
            for c in pieces {
                for gap in gaps {
                    for lead in ["", " ", "\u{2028}"] {
                        let line = format!("{lead}{a}{gap}{b}{gap}{c}{lead}");
                        assert_eq!(
                            request_target(&line),
                            second_of_three_words_after_get(&line),
                            "{:?}",
                            line
                        );
                    }
                }
            }
        }
    }
}

#[test]
fn root_and_sleep_are_greetings() {
    assert_eq!(route("/"), Route::Hello);
    assert_eq!(route("/sleep"), Route::SlowHello);
    assert_eq!(SLEEP_SECS, 10);
}

#[test]
fn other_targets_name_files_under_html() {
    assert_eq!(route("/about"), Route::File { path: String::from("html//about.html") });
    assert_eq!(route("about"), Route::File { path: String::from("html/about.html") });
    assert_eq!(route(""), Route::File { path: String::from("html/.html") });
    assert_eq!(route("/sleep/"), Route::File { path: String::from("html//sleep/.html") });
    assert_eq!(route("/Sleep"), Route::File { path: String::from("html//Sleep.html") });
    assert_eq!(route("//"), Route::File { path: String::from("html///.html") });
    assert_eq!(route("/caf\u{e9}"), Route::File { path: String::from("html//caf\u{e9}.html") });
}

#[test]
fn greetings_answer_with_the_hello_page() {
    for found in [true, false] {
        for greeting in [Route::Hello, Route::SlowHello] {
            assert_eq!(
                answer(greeting, found),
                Answer { status: Status::Okay, path: String::from("html/hello.html") }
            );
        }
    }
}

#[test]
fn files_answer_with_themselves_or_the_not_found_page() {
    let file = || Route::File { path: String::from("html//about.html") };
    assert_eq!(
        answer(file(), true),
        Answer { status: Status::Okay, path: String::from("html//about.html") }
    );
    assert_eq!(
        answer(file(), false),
        Answer { status: Status::NotFound, path: String::from("html/404.html") }
    );
}

#[test]
fn status_lines_read_as_sent() {
    assert_eq!(status_line(Status::Okay), "HTTP/1.1 200 0K");
    assert_eq!(status_line(Status::NotFound), "HTTP/1.1 404 NOT FOUND");
}

#[test]
fn response_counts_bytes_in_decimal() {
    assert_eq!(
        response("HTTP/1.1 200 0K", "hello"),
        "HTTP/1.1 200 0K\r\nContent-Length: 5\r\n\r\nhello"
    );
    assert_eq!(response("S", ""), "S\r\nContent-Length: 0\r\n\r\n");
    assert_eq!(response("", "\u{e9}"), "\r\nContent-Length: 2\r\n\r\n\u{e9}");
    assert_eq!(
        response("HTTP/1.1 404 NOT FOUND", "0123456789"),
        "HTTP/1.1 404 NOT FOUND\r\nContent-Length: 10\r\n\r\n0123456789"
    );
}

#[test]
fn response_agrees_with_formatting_for_many_lengths() {
    for length in [0usize, 1, 9, 10, 11, 99, 100, 101, 999, 1000, 4096, 12345, 100000] {
        let contents = "x".repeat(length);
        let expected = format!("OK\r\nContent-Length: {length}\r\n\r\n{contents}");
        assert_eq!(response("OK", &contents), expected);
    }
}
