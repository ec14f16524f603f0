use subtearium::search::{
    api_error, choose_lyrics, decode_error, network_error, next_step, rate_limit_error,
    status_for_error, status_of_choice, tags_complete, FetchStep, LyricsChoice, Reply,
    MAX_ATTEMPTS,
};
use subtearium::status::SongStatus;

#[test]
fn success_is_accepted() {
    assert!(matches!(next_step(1, Reply::Success, String::new()), FetchStep::Accept));
    assert!(matches!(next_step(3, Reply::Success, String::new()), FetchStep::Accept));
}

#[test]
fn error_status_is_rejected() {
    assert!(matches!(next_step(1, Reply::Failed(404), String::new()), FetchStep::Reject(404)));
    assert!(matches!(next_step(2, Reply::Failed(400), String::new()), FetchStep::Reject(400)));
}

#[test]
fn rate_limit_backs_off_then_gives_up() {
    assert!(matches!(next_step(1, Reply::RateLimited, String::new()), FetchStep::RetryAfter(3)));
    assert!(matches!(next_step(2, Reply::RateLimited, String::new()), FetchStep::RetryAfter(6)));
    match next_step(MAX_ATTEMPTS, Reply::RateLimited, String::new()) {
        FetchStep::Fail(e) => {
            assert_eq!(e.code, 429);
            assert_eq!(e.name, "RateLimit");
            assert_eq!(e.message, "Max retries exceeded due to rate limiting.");
        }
        _ => panic!("expected to give up"),
    }
}

#[test]
fn network_error_retries_then_gives_up() {
    assert!(matches!(next_step(1, Reply::Unreachable, "down".to_string()), FetchStep::RetryAfter(2)));
    assert!(matches!(next_step(2, Reply::Unreachable, "down".to_string()), FetchStep::RetryAfter(2)));
    match next_step(3, Reply::Unreachable, "down".to_string()) {
        FetchStep::Fail(e) => {
            assert_eq!(e.code, 2139);
            assert_eq!(e.name, "Network");
            assert_eq!(e.message, "down");
        }
        _ => panic!("expected to give up"),
    }
}

#[test]
fn error_builders() {
    let e = rate_limit_error();
    assert_eq!((e.code, e.name.as_str()), (429, "RateLimit"));
    let e = network_error("x".to_string());
    assert_eq!((e.code, e.name.as_str(), e.message.as_str()), (2139, "Network", "x"));
    let e = decode_error("bad json".to_string());
    assert_eq!((e.code, e.name.as_str(), e.message.as_str()), (2137, "serde", "bad json"));
    let e = api_error(503, "busy".to_string());
    assert_eq!((e.code, e.name.as_str(), e.message.as_str()), (503, "ApiError", "busy"));
}

#[test]
fn tags_needed_for_a_search() {
    assert!(tags_complete("Song", "Artist", "Album", 3));
    assert!(!tags_complete("Song", "Artist", "Album", 2));
    assert!(!tags_complete("  ", "Artist", "Album", 200));
    assert!(!tags_complete("Song", "", "Album", 200));
    assert!(!tags_complete("Song", "Artist", "\t", 200));
}

#[test]
fn lyrics_choice() {
    assert_eq!(choose_lyrics(true, true, true, true), LyricsChoice::Synced);
    assert_eq!(choose_lyrics(false, true, true, true), LyricsChoice::Plain);
    assert_eq!(choose_lyrics(true, true, false, true), LyricsChoice::Plain);
    assert_eq!(choose_lyrics(true, false, false, true), LyricsChoice::Nothing);
    assert_eq!(choose_lyrics(false, false, true, true), LyricsChoice::Nothing);
    assert_eq!(choose_lyrics(true, true, false, false), LyricsChoice::Nothing);
}

#[test]
fn statuses_of_outcomes() {
    assert_eq!(status_of_choice(LyricsChoice::Synced), SongStatus::Synced);
    assert_eq!(status_of_choice(LyricsChoice::Plain), SongStatus::Plain);
    assert_eq!(status_of_choice(LyricsChoice::Nothing), SongStatus::NoResult);
    assert_eq!(status_for_error(400), SongStatus::TagErr);
    assert_eq!(status_for_error(404), SongStatus::NoResult);
    assert_eq!(status_for_error(2139), SongStatus::NoResult);
}
