use hermes_launcher::token::{chat_url, parse_token_file, poll_dashboard, DashboardInfo, DashboardPoll};

#[test]
fn parse_token_happy_path() {
    let s = "url=http://127.0.0.1:42777\ntoken=abc.def\npid=1234\n";
    let info = parse_token_file(s).unwrap();
    assert_eq!(info.url, "http://127.0.0.1:42777");
    assert_eq!(info.token, "abc.def");
}

#[test]
fn parse_token_missing_token_returns_none() {
    let s = "url=http://127.0.0.1:42777\npid=1234\n";
    assert!(parse_token_file(s).is_none());
}

#[test]
fn parse_token_extra_whitespace() {
    let s = "url=  http://127.0.0.1:1\ntoken=  xyz   \n";
    let info = parse_token_file(s).unwrap();
    assert_eq!(info.url, "http://127.0.0.1:1");
    assert_eq!(info.token, "xyz");
}

#[test]
fn parse_token_missing_url_returns_none() {
    assert!(parse_token_file("token=abc\n").is_none());
}

#[test]
fn parse_token_empty_file_returns_none() {
    assert!(parse_token_file("").is_none());
}

#[test]
fn parse_token_crlf_line_endings() {
    let info = parse_token_file("url=http://h:1\r\ntoken=t1\r\n").unwrap();
    assert_eq!(info.url, "http://h:1");
    assert_eq!(info.token, "t1");
}

#[test]
fn parse_token_last_line_without_newline() {
    let info = parse_token_file("token=last\nurl=http://h:2").unwrap();
    assert_eq!(info.url, "http://h:2");
    assert_eq!(info.token, "last");
}

#[test]
fn parse_token_last_occurrence_wins() {
    let info = parse_token_file("url=a\nurl=b\ntoken=t\ntoken=u\n").unwrap();
    assert_eq!(info.url, "b");
    assert_eq!(info.token, "u");
}

#[test]
fn parse_token_key_must_start_the_line() {
    assert!(parse_token_file(" url=a\ntoken=t\n").is_none());
    assert!(parse_token_file("URL=a\ntoken=t\n").is_none());
}

#[test]
fn parse_token_unicode_white_space_is_trimmed() {
    let info = parse_token_file("url=\u{3000}http://h:3\u{a0}\ntoken=\tx\u{2003}\n").unwrap();
    assert_eq!(info.url, "http://h:3");
    assert_eq!(info.token, "x");
}

#[test]
fn parse_token_empty_values() {
    let info = parse_token_file("url=\ntoken=   \n").unwrap();
    assert_eq!(info.url, "");
    assert_eq!(info.token, "");
}

#[test]
fn token_file_roundtrip_on_values() {
    let url = "http://127.0.0.1:5555";
    let token = "tok-123.xyz";
    let text = format!("url={}\ntoken={}\n", url, token);
    let info = parse_token_file(&text).unwrap();
    assert_eq!(info.url, url);
    assert_eq!(info.token, token);
}

#[test]
fn poll_ready_even_past_deadline() {
    match poll_dashboard(Some("url=http://h:1\ntoken=t\n"), true) {
        DashboardPoll::Ready(info) => {
            assert_eq!(info.url, "http://h:1");
            assert_eq!(info.token, "t");
        }
        _ => panic!("expected the dashboard to be ready"),
    }
}

#[test]
fn poll_times_out_without_a_usable_file() {
    assert!(matches!(poll_dashboard(None, true), DashboardPoll::TimedOut));
    assert!(matches!(poll_dashboard(Some("url=x\n"), true), DashboardPoll::TimedOut));
}

#[test]
fn poll_retries_before_the_deadline() {
    assert!(matches!(poll_dashboard(None, false), DashboardPoll::Retry));
    assert!(matches!(poll_dashboard(Some("pid=1\n"), false), DashboardPoll::Retry));
}

#[test]
fn chat_url_appends_the_token() {
    let info = DashboardInfo { url: "http://127.0.0.1:42777".to_string(), token: "abc.def".to_string() };
    assert_eq!(chat_url(&info), "http://127.0.0.1:42777/chat?token=abc.def");
}
