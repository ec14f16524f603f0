use vstd::prelude::*;
use crate::status::SongStatus;
use crate::text::{blank, is_blank};

verus! {

/// The number of attempts that a request for lyrics makes at most.
pub const MAX_ATTEMPTS: u32 = 3;

/// The code of an error in reading the reply of the lyrics service.
pub const CODE_DECODE: u16 = 2137;

/// The code of an error in reaching the lyrics service.
pub const CODE_NETWORK: u16 = 2139;

/// The code with which the lyrics service turns requests away for a while.
pub const CODE_RATE_LIMIT: u16 = 429;

/// The code with which the lyrics service rejects a request with bad tags.
pub const CODE_BAD_REQUEST: u16 = 400;

/// An error of the lyrics service, or of reaching it.
#[derive(Debug)]
pub struct LrcError {
    pub code: u16,
    pub name: String,
    pub message: String,
}

/// How an attempt to fetch lyrics went.
#[derive(Clone, Copy, Debug, PartialEq, Eq, Structural)]
pub enum Reply {
    /// The service answered with success.
    Success,
    /// The service answered that requests come too fast.
    RateLimited,
    /// The service answered with another error status.
    Failed(u16),
    /// The service could not be reached.
    Unreachable,
}

/// What a request for lyrics does after an attempt.
#[derive(Debug)]
pub enum FetchStep {
    /// Read the body of the reply as the lyrics track.
    Accept,
    /// Read the body of the reply as the service's error, with this status.
    Reject(u16),
    /// Wait this many seconds and try again.
    RetryAfter(u64),
    /// Give up with this error.
    Fail(LrcError),
}

/// The error of a request that the service kept turning away.
pub fn rate_limit_error() -> (r: LrcError)
    ensures
        r.code == CODE_RATE_LIMIT,
        r.name@ == "RateLimit"@,
        r.message@ == "Max retries exceeded due to rate limiting."@,
{
    LrcError {
        code: CODE_RATE_LIMIT,
        name: String::from_str("RateLimit"),
        message: String::from_str("Max retries exceeded due to rate limiting."),
    }
}

/// The error of a request that could not reach the service.
pub fn network_error(detail: String) -> (r: LrcError)
    ensures
        r.code == CODE_NETWORK,
        r.name@ == "Network"@,
        r.message == detail,
{
    LrcError { code: CODE_NETWORK, name: String::from_str("Network"), message: detail }
}

/// The error of a reply whose body is not a lyrics track.
pub fn decode_error(detail: String) -> (r: LrcError)
    ensures
        r.code == CODE_DECODE,
        r.name@ == "serde"@,
        r.message == detail,
{
    LrcError { code: CODE_DECODE, name: String::from_str("serde"), message: detail }
}

/// The error of a reply with an error status whose body is not an error of
/// the service: the status and the body as they came.
pub fn api_error(code: u16, body: String) -> (r: LrcError)
    ensures
        r.code == code,
        r.name@ == "ApiError"@,
        r.message == body,
{
    LrcError { code, name: String::from_str("ApiError"), message: body }
}

/// What a request for lyrics does after its attempt number `attempt`
/// (counted from 1) went as `reply`; `detail` describes a failure to reach
/// the service. A rate-limited attempt waits 3 seconds per attempt made, an
/// unreachable service 2 seconds, and both give up at the last attempt.
pub fn next_step(attempt: u32, reply: Reply, detail: String) -> (r: FetchStep)
    requires
        attempt >= 1,
    ensures
        attempt >= MAX_ATTEMPTS ==> !(r is RetryAfter),
        reply == Reply::Success ==> r is Accept,
        (reply matches Reply::Failed(code) ==> (r matches FetchStep::Reject(c) && c == code)),
        reply == Reply::RateLimited && attempt < MAX_ATTEMPTS ==> (r matches FetchStep::RetryAfter(
            d) && d == 3 * attempt),
        reply == Reply::RateLimited && attempt >= MAX_ATTEMPTS ==> (r matches FetchStep::Fail(e)
            && e.code == CODE_RATE_LIMIT && e.name@ == "RateLimit"@ && e.message@
            == "Max retries exceeded due to rate limiting."@),
        reply == Reply::Unreachable && attempt < MAX_ATTEMPTS ==> (r matches FetchStep::RetryAfter(
            d) && d == 2),
        reply == Reply::Unreachable && attempt >= MAX_ATTEMPTS ==> (r matches FetchStep::Fail(e)
            && e.code == CODE_NETWORK && e.name@ == "Network"@ && e.message == detail),
{
    match reply {
        Reply::Success => FetchStep::Accept,
        Reply::Failed(code) => FetchStep::Reject(code),
        Reply::RateLimited => {
            if attempt >= MAX_ATTEMPTS {
                FetchStep::Fail(rate_limit_error())
            } else {
                FetchStep::RetryAfter(3 * attempt as u64)
            }
        },
        Reply::Unreachable => {
            if attempt >= MAX_ATTEMPTS {
                FetchStep::Fail(network_error(detail))
            } else {
                FetchStep::RetryAfter(2)
            }
        },
    }
}

/// Whether the tags of a song are enough to ask for its lyrics: title,
/// artist and album are not blank and the duration is at least 3 seconds.
pub open spec fn spec_tags_complete(
    title: Seq<char>,
    artist: Seq<char>,
    album: Seq<char>,
    duration: u32,
) -> bool {
    !(is_blank(title) || is_blank(artist) || is_blank(album) || duration < 3)
}

/// Whether the tags of a song are enough to ask for its lyrics.
pub fn tags_complete(title: &str, artist: &str, album: &str, duration: u32) -> (r: bool)
    ensures
        r == spec_tags_complete(title@, artist@, album@, duration),
{
    !(blank(title) || blank(artist) || blank(album) || duration < 3)
}

/// Which lyrics of a track to write to the `.lrc` file.
#[derive(Clone, Copy, Debug, PartialEq, Eq, Structural)]
pub enum LyricsChoice {
    Synced,
    Plain,
    Nothing,
}

/// Which lyrics of a track to write: synced lyrics where wanted and present,
/// else plain lyrics where wanted and present, else none.
pub open spec fn spec_choose_lyrics(
    enable_synced: bool,
    enable_plain: bool,
    has_synced: bool,
    has_plain: bool,
) -> LyricsChoice {
    if enable_synced && has_synced {
        LyricsChoice::Synced
    } else if enable_plain && has_plain {
        LyricsChoice::Plain
    } else {
        LyricsChoice::Nothing
    }
}

/// Which lyrics of a track to write.
pub fn choose_lyrics(enable_synced: bool, enable_plain: bool, has_synced: bool, has_plain: bool) -> (r:
    LyricsChoice)
    ensures
        r == spec_choose_lyrics(enable_synced, enable_plain, has_synced, has_plain),
        enable_synced && has_synced ==> r == LyricsChoice::Synced,
        !(enable_synced && has_synced) && enable_plain && has_plain ==> r == LyricsChoice::Plain,
{
    if enable_synced && has_synced {
        LyricsChoice::Synced
    } else if enable_plain && has_plain {
        LyricsChoice::Plain
    } else {
        LyricsChoice::Nothing
    }
}

/// The status of a song whose lyrics were chosen so.
pub open spec fn spec_status_of_choice(c: LyricsChoice) -> SongStatus {
    match c {
        LyricsChoice::Synced => SongStatus::Synced,
        LyricsChoice::Plain => SongStatus::Plain,
        LyricsChoice::Nothing => SongStatus::NoResult,
    }
}

/// The status of a song whose lyrics were chosen so: none written counts as
/// a search without result.
pub fn status_of_choice(c: LyricsChoice) -> (r: SongStatus)
    ensures
        r == spec_status_of_choice(c),
{
    match c {
        LyricsChoice::Synced => SongStatus::Synced,
        LyricsChoice::Plain => SongStatus::Plain,
        LyricsChoice::Nothing => SongStatus::NoResult,
    }
}

/// The status of a song whose request for lyrics failed with this code: a
/// rejected request means bad tags, anything else no result.
pub fn status_for_error(code: u16) -> (r: SongStatus)
    ensures
        r == if code == CODE_BAD_REQUEST {
            SongStatus::TagErr
        } else {
            SongStatus::NoResult
        },
{
    if code == CODE_BAD_REQUEST {
        SongStatus::TagErr
    } else {
        SongStatus::NoResult
    }
}

} // verus!
