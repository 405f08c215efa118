use url_shortener::backend::handler::{ShortUrlResponse, ShortenDataResponse};
use url_shortener::frontend::FrameState;

#[test]
fn page_starts_empty_and_records_input() {
    let mut state = FrameState::new();
    assert_eq!(state.long_url, "");
    assert_eq!(state.short_url, "");
    state.on_input("https://rust-lang.org".to_string());
    assert_eq!(state.long_url, "https://rust-lang.org");
    assert_eq!(state.short_url, "");
}

#[test]
fn button_asks_under_default_domain() {
    let mut state = FrameState::new();
    state.on_input("https://rust-lang.org".to_string());
    let request = state.shorten_request();
    assert_eq!(request.domain, "localhost:8080");
    assert_eq!(request.url, "https://rust-lang.org");
}

#[test]
fn answer_replaces_short_url_and_failure_keeps_it() {
    let mut state = FrameState::new();
    state.on_input("https://rust-lang.org".to_string());
    let body = ShortenDataResponse {
        data: ShortUrlResponse {
            domain: "localhost:8080".to_string(),
            alias: "abc".to_string(),
            short_url: "localhost:8080/abc".to_string(),
        },
    };
    state.on_response(Some(body));
    assert_eq!(state.short_url, "localhost:8080/abc");
    state.on_response(None);
    assert_eq!(state.short_url, "localhost:8080/abc");
    assert_eq!(state.long_url, "https://rust-lang.org");
}
