//! The endpoint client's computing half: building the two CT request URLs,
//! classifying a response status into data / rate-limited / unhandled,
//! reading the JSON envelopes, and decoding the base64 payloads into
//! entries. The HTTP round-trip itself stays outside the library; callers
//! hand in the status, the Retry-After header, and the body text.

use vstd::prelude::*;
use vstd::string::StringExecFns;

use crate::codec::{
    entry_matches, fault_matches, parse_log_entry, spec_entry_outcome, Entry,
};
use crate::error::{LogError, ResponseError, StreamError, UrlError};
use crate::text::{push_decimal, spec_decimal};

verus! {

/// The tri-valued outcome of one CT HTTP call: a payload, a rate limit with
/// an optional delay in milliseconds, or an unhandled status.
#[derive(Clone, Debug)]
pub enum Response<T> {
    /// A status outside the handled set, absorbed as transient.
    Unhandled(u16),
    /// 429: rate limited, with the delay the server asked for.
    Limited(Option<u64>),
    /// 200: the decoded payload.
    Data(T),
}

/// The ghost value of an optional borrowed string.
pub open spec fn opt_str_view(o: Option<&str>) -> Option<Seq<char>> {
    match o {
        Some(s) => Some(s@),
        None => None,
    }
}

/// Whether the character is a decimal digit.
pub open spec fn spec_is_digit(c: char) -> bool {
    '0' <= c && c <= '9'
}

/// The value of a decimal digit character.
pub open spec fn spec_digit_val(c: char) -> int {
    c as int - '0' as int
}

/// Whether the text is one or more decimal digits and nothing else.
pub open spec fn spec_all_digits(s: Seq<char>) -> bool {
    forall|i: int| 0 <= i < s.len() ==> spec_is_digit(#[trigger] s[i])
}

/// The value of a digit string.
pub open spec fn spec_dec_value(s: Seq<char>) -> int
    decreases s.len(),
{
    if s.len() == 0 {
        0
    } else {
        spec_dec_value(s.drop_last()) * 10 + spec_digit_val(s.last())
    }
}

/// Parsing the text as a decimal `u64`: defined exactly when the text is
/// nonempty, all digits, and the value fits.
pub open spec fn spec_parse_u64(s: Seq<char>) -> Option<u64> {
    if s.len() > 0 && spec_all_digits(s) && spec_dec_value(s) <= u64::MAX {
        Some(spec_dec_value(s) as u64)
    } else {
        None
    }
}

/// A digit string's value only grows as digits are appended.
proof fn lemma_dec_value_monotone(s: Seq<char>, i: int)
    requires
        0 <= i <= s.len(),
        spec_all_digits(s),
    ensures
        spec_dec_value(s) >= spec_dec_value(s.take(i)),
        spec_dec_value(s) >= 0,
    decreases s.len() - i,
{
    if i == s.len() {
        assert(s.take(i) =~= s);
        lemma_dec_value_nonneg(s);
    } else {
        lemma_dec_value_monotone(s, i + 1);
        assert(s.take(i + 1).drop_last() =~= s.take(i));
        assert(s.take(i + 1).last() == s[i]);
        lemma_dec_value_nonneg(s.take(i));
    }
}

/// A digit string's value is not negative.
proof fn lemma_dec_value_nonneg(s: Seq<char>)
    requires
        spec_all_digits(s),
    ensures
        spec_dec_value(s) >= 0,
    decreases s.len(),
{
    if s.len() > 0 {
        assert(spec_all_digits(s.drop_last()));
        lemma_dec_value_nonneg(s.drop_last());
    }
}

/// Parses the text as a decimal `u64`, exactly as `spec_parse_u64` says.
#[verifier::loop_isolation(false)]
pub fn parse_u64(s: &str) -> (r: Option<u64>)
    ensures
        r == spec_parse_u64(s@),
{
    let len = s.unicode_len();
    if len == 0 {
        return None;
    }
    let mut acc: u64 = 0;
    let mut i: usize = 0;
    while i < len
        invariant
            0 < len == s@.len(),
            i <= len,
            spec_all_digits(s@.take(i as int)),
            acc == spec_dec_value(s@.take(i as int)),
        decreases len - i,
    {
        let c = s.get_char(i);
        if !(c >= '0' && c <= '9') {
            assert(!spec_is_digit(s@[i as int]));
            return None;
        }
        let d = (c as u32 - '0' as u32) as u64;
        assert(d == spec_digit_val(s@[i as int]));
        if acc > (u64::MAX - d) / 10 {
            proof {
                assert(spec_all_digits(s@.take(i + 1)));
                assert(s@.take(i + 1).drop_last() =~= s@.take(i as int));
                assert(s@.take(i + 1).last() == s@[i as int]);
                assert(spec_dec_value(s@.take(i + 1)) > u64::MAX);
                if spec_all_digits(s@) {
                    lemma_dec_value_monotone(s@, i + 1);
                }
            }
            return None;
        }
        acc = acc * 10 + d;
        i = i + 1;
        proof {
            assert(s@.take(i as int).drop_last() =~= s@.take(i - 1));
            assert(s@.take(i as int).last() == s@[i - 1]);
        }
    }
    proof {
        assert(s@.take(len as int) =~= s@);
    }
    Some(acc)
}

/// The instant an RFC 2822 date names, in seconds of Unix time, when the
/// text is such a date.
pub uninterp spec fn rfc2822_unix_of(s: Seq<char>) -> Option<i64>;

/// Relies on chrono's `DateTime::parse_from_rfc2822`: the instant encoded in
/// the text, a function of the text alone.
#[verifier::external_body]
fn rfc2822_unix(s: &str) -> (r: Option<i64>)
    ensures
        r == rfc2822_unix_of(s@),
{
    chrono::DateTime::parse_from_rfc2822(s).ok().map(|d| d.timestamp())
}

/// The delay a Retry-After header asks for, in milliseconds: decimal seconds
/// when the value is a plain number, else the distance from `now` to the
/// RFC 2822 date it names, clamped at zero; saturating at the top of `u64`.
pub open spec fn spec_retry_after_millis(header: Option<Seq<char>>, now: i64) -> Option<u64> {
    match header {
        None => None,
        Some(h) => match spec_parse_u64(h) {
            Some(secs) => if secs > u64::MAX as int / 1000 {
                Some(u64::MAX)
            } else {
                Some((secs * 1000) as u64)
            },
            None => match rfc2822_unix_of(h) {
                Some(t) => if t <= now {
                    Some(0)
                } else if t - now > u64::MAX as int / 1000 {
                    Some(u64::MAX)
                } else {
                    Some(((t - now) * 1000) as u64)
                },
                None => None,
            },
        },
    }
}

/// Reads a Retry-After header value, exactly as `spec_retry_after_millis`
/// says.
pub fn retry_after_millis(header: Option<&str>, now: i64) -> (r: Option<u64>)
    ensures
        r == spec_retry_after_millis(opt_str_view(header), now),
{
    let h = match header {
        Some(h) => h,
        None => {
            return None;
        }
    };
    if let Some(secs) = parse_u64(h) {
        if secs > u64::MAX / 1000 {
            return Some(u64::MAX);
        }
        return Some(secs * 1000);
    }
    match rfc2822_unix(h) {
        Some(t) => {
            if t <= now {
                Some(0)
            } else {
                let d = (t as i128) - (now as i128);
                if d > (u64::MAX / 1000) as i128 {
                    Some(u64::MAX)
                } else {
                    Some((d as u64) * 1000)
                }
            }
        }
        None => None,
    }
}

/// The tree size announced in a get-sth body: the value of the top-level
/// `tree_size` field, when the text is a JSON object carrying one as an
/// unsigned number.
pub uninterp spec fn tree_size_of(s: Seq<char>) -> Option<u64>;

/// Relies on serde_json: the unsigned `tree_size` field of the JSON object
/// the text encodes, a function of the text alone.
#[verifier::external_body]
fn json_tree_size(s: &str) -> (r: Option<u64>)
    ensures
        r == tree_size_of(s@),
{
    serde_json::from_str::<serde_json::Value>(s).ok().and_then(
        |v| v.get("tree_size").and_then(|t| t.as_u64()),
    )
}

/// How many entries a get-entries body carries: the length of the top-level
/// `entries` array, when the text is a JSON object carrying one.
pub uninterp spec fn entries_count_of(s: Seq<char>) -> Option<usize>;

/// Relies on serde_json: the length of the `entries` array of the JSON
/// object the text encodes, a function of the text alone.
#[verifier::external_body]
fn json_entries_count(s: &str) -> (r: Option<usize>)
    ensures
        r == entries_count_of(s@),
{
    serde_json::from_str::<serde_json::Value>(s).ok().and_then(
        |v| v.get("entries").and_then(|e| e.as_array().map(|a| a.len())),
    )
}

/// The entry at an index of a get-entries body: the `leaf_input` and
/// `extra_data` strings of the i-th element of the `entries` array, when
/// both are present as strings.
pub uninterp spec fn entry_pair_of(s: Seq<char>, i: int) -> Option<(Seq<char>, Seq<char>)>;

/// Relies on serde_json: the two base64 strings of the i-th entry of the
/// JSON object the text encodes, a function of the text and the index alone.
#[verifier::external_body]
fn json_entry_at(s: &str, i: usize) -> (r: Option<(String, String)>)
    ensures
        (r is Some) == (entry_pair_of(s@, i as int) is Some),
        r is Some ==> r.unwrap().0@ == entry_pair_of(s@, i as int).unwrap().0 && r.unwrap().1@
            == entry_pair_of(s@, i as int).unwrap().1,
{
    let v = serde_json::from_str::<serde_json::Value>(s).ok()?;
    let e = v.get("entries")?.get(i)?;
    let leaf = e.get("leaf_input")?.as_str()?.to_owned();
    let extra = e.get("extra_data")?.as_str()?.to_owned();
    Some((leaf, extra))
}

/// The bytes a base64 text encodes, when it is well-formed standard base64.
pub uninterp spec fn b64_decode_of(s: Seq<char>) -> Option<Seq<u8>>;

/// Relies on the base64 crate's standard-alphabet decoder: the bytes the
/// text encodes, a function of the text alone.
#[verifier::external_body]
fn b64_decode(s: &str) -> (r: Option<Vec<u8>>)
    ensures
        (r is Some) == (b64_decode_of(s@) is Some),
        r is Some ==> r.unwrap()@ == b64_decode_of(s@).unwrap(),
{
    base64::decode(s).ok()
}

/// The URL made of a base and three path segments appended to it, when the
/// base parses as an absolute URL that can carry segments.
pub uninterp spec fn url_segments_of(
    base: Seq<char>,
    s1: Seq<char>,
    s2: Seq<char>,
    s3: Seq<char>,
) -> Option<Seq<char>>;

/// Relies on the url crate's `Url::parse` and `path_segments_mut`: the base
/// with the three segments appended (a trailing empty segment of the base is
/// dropped first), or which of the two steps refused it.
#[verifier::external_body]
fn url_with_segments(base: &str, s1: &str, s2: &str, s3: &str) -> (r: Result<String, UrlError>)
    ensures
        (r is Ok) == (url_segments_of(base@, s1@, s2@, s3@) is Some),
        r is Ok ==> r->Ok_0@ == url_segments_of(base@, s1@, s2@, s3@).unwrap(),
{
    let mut url = match url::Url::parse(base) {
        Ok(url) => url,
        Err(_) => return Err(UrlError::Parse),
    };
    match url.path_segments_mut() {
        Ok(mut segments) => {
            segments.pop_if_empty().extend([s1, s2, s3]);
        }
        Err(()) => return Err(UrlError::CannotBeABase),
    }
    Ok(String::from(url))
}

/// The URL of the get-sth endpoint under a base URL.
pub fn size_request_url(base: &str) -> (r: Result<String, StreamError>)
    ensures
        (r is Ok) == (url_segments_of(base@, "ct"@, "v1"@, "get-sth"@) is Some),
        r is Ok ==> r->Ok_0@ == url_segments_of(base@, "ct"@, "v1"@, "get-sth"@).unwrap(),
        r is Err ==> r->Err_0 is Endpoint,
{
    match url_with_segments(base, "ct", "v1", "get-sth") {
        Ok(u) => Ok(u),
        Err(e) => Err(StreamError::Endpoint(e)),
    }
}

/// The URL of the get-entries endpoint under a base URL, with `start` and
/// `end` query parameters asking for `count` entries from `start`.
pub fn entries_request_url(base: &str, start: usize, count: usize) -> (r: Result<
    String,
    StreamError,
>)
    requires
        start + count <= usize::MAX,
    ensures
        (r is Ok) == (url_segments_of(base@, "ct"@, "v1"@, "get-entries"@) is Some),
        r is Ok ==> r->Ok_0@ == url_segments_of(base@, "ct"@, "v1"@, "get-entries"@).unwrap()
            + "?start="@ + spec_decimal(start as nat) + "&end="@ + spec_decimal(
            (start + count) as nat,
        ),
        r is Err ==> r->Err_0 is Endpoint,
{
    let mut url = match url_with_segments(base, "ct", "v1", "get-entries") {
        Ok(u) => u,
        Err(e) => {
            return Err(StreamError::Endpoint(e));
        }
    };
    url.append("?start=");
    push_decimal(&mut url, start as u64);
    url.append("&end=");
    push_decimal(&mut url, (start + count) as u64);
    Ok(url)
}

/// Interprets a get-sth response: on 200 the tree size read out of the
/// body, on 429 the rate limit with the Retry-After delay, terminal errors
/// for the other 4xx and for 5xx, and everything else (400 included)
/// unhandled.
pub fn interpret_log_size(status: u16, retry_after: Option<&str>, now: i64, body: &str) -> (r:
    Result<Response<u64>, StreamError>)
    ensures
        status == 200 && tree_size_of(body@) is Some ==> r is Ok && r->Ok_0 == Response::<
            u64,
        >::Data(tree_size_of(body@).unwrap()),
        status == 200 && tree_size_of(body@) is None ==> r is Err && r->Err_0 matches
            StreamError::Log(LogError::Parse(_)),
        status == 429 ==> r is Ok && r->Ok_0 == Response::<u64>::Limited(
            spec_retry_after_millis(opt_str_view(retry_after), now),
        ),
        status != 200 && status != 429 && 401 <= status <= 499 ==> r is Err && r->Err_0
            == StreamError::Response(ResponseError::Client(status)),
        500 <= status <= 599 ==> r is Err && r->Err_0 == StreamError::Response(
            ResponseError::Server(status),
        ),
        status != 200 && status != 429 && !(401 <= status <= 599) ==> r is Ok && r->Ok_0
            == Response::<u64>::Unhandled(status),
{
    if status == 200 {
        match json_tree_size(body) {
            Some(n) => Ok(Response::Data(n)),
            None => Err(StreamError::Log(LogError::Parse("invalid log response"))),
        }
    } else if status == 429 {
        Ok(Response::Limited(retry_after_millis(retry_after, now)))
    } else if status >= 401 && status <= 499 {
        Err(StreamError::Response(ResponseError::Client(status)))
    } else if status >= 500 && status <= 599 {
        Err(StreamError::Response(ResponseError::Server(status)))
    } else {
        Ok(Response::Unhandled(status))
    }
}

/// The decoded byte buffers of the entry at an index of a get-entries body,
/// when the entry is present and both fields are well-formed base64.
pub open spec fn spec_entry_source(text: Seq<char>, i: int) -> Option<(Seq<u8>, Seq<u8>)> {
    match entry_pair_of(text, i) {
        None => None,
        Some(pair) => match (b64_decode_of(pair.0), b64_decode_of(pair.1)) {
            (Some(leaf), Some(extra)) => Some((leaf, extra)),
            _ => None,
        },
    }
}

/// Whether the entry at an index of a get-entries body decodes completely.
pub open spec fn entry_good(text: Seq<char>, i: int) -> bool {
    &&& spec_entry_source(text, i) is Some
    &&& spec_entry_outcome(
        spec_entry_source(text, i).unwrap().0,
        spec_entry_source(text, i).unwrap().1,
    ) is Ok
}

/// Whether `e` is the error for the entry at an index: a parse error when
/// the entry or its base64 is malformed, else the codec's fault.
pub open spec fn entry_bad(text: Seq<char>, i: int, e: LogError) -> bool {
    match spec_entry_source(text, i) {
        None => e is Parse,
        Some(source) => spec_entry_outcome(source.0, source.1) is Err && fault_matches(
            e,
            spec_entry_outcome(source.0, source.1)->Err_0,
        ),
    }
}

/// Whether a whole get-entries body decodes into entries.
pub open spec fn spec_entries_ok(text: Seq<char>) -> bool {
    &&& entries_count_of(text) is Some
    &&& forall|i: int| 0 <= i < entries_count_of(text).unwrap() ==> entry_good(text, i)
}

/// Decodes a get-entries body: the JSON envelope, each entry's two base64
/// fields, and each entry's leaf and chain. One malformed entry is one
/// error, the first one met; nothing is skipped.
#[verifier::loop_isolation(false)]
pub fn read_log_entries(text: &str) -> (r: Result<Vec<Entry>, LogError>)
    ensures
        (r is Ok) == spec_entries_ok(text@),
        r is Ok ==> r->Ok_0@.len() == entries_count_of(text@).unwrap() && (forall|i: int|
            0 <= i < r->Ok_0@.len() ==> entry_matches(
                #[trigger] r->Ok_0@[i],
                spec_entry_outcome(
                    spec_entry_source(text@, i).unwrap().0,
                    spec_entry_source(text@, i).unwrap().1,
                )->Ok_0.0,
                spec_entry_outcome(
                    spec_entry_source(text@, i).unwrap().0,
                    spec_entry_source(text@, i).unwrap().1,
                )->Ok_0.1,
            )),
        r is Err && entries_count_of(text@) is None ==> r->Err_0 is Parse,
        r is Err && entries_count_of(text@) is Some ==> exists|i: int|
            0 <= i < entries_count_of(text@).unwrap() && (forall|j: int|
                0 <= j < i ==> entry_good(text@, j)) && entry_bad(text@, i, r->Err_0),
{
    let count = match json_entries_count(text) {
        Some(n) => n,
        None => {
            return Err(LogError::Parse("invalid log response"));
        }
    };
    let mut out: Vec<Entry> = Vec::new();
    for i in 0..count
        invariant
            out@.len() == i,
            forall|j: int| 0 <= j < i ==> entry_good(text@, j),
            forall|j: int|
                0 <= j < i ==> entry_matches(
                    #[trigger] out@[j],
                    spec_entry_outcome(
                        spec_entry_source(text@, j).unwrap().0,
                        spec_entry_source(text@, j).unwrap().1,
                    )->Ok_0.0,
                    spec_entry_outcome(
                        spec_entry_source(text@, j).unwrap().0,
                        spec_entry_source(text@, j).unwrap().1,
                    )->Ok_0.1,
                ),
    {
        let pair = match json_entry_at(text, i) {
            Some(pair) => pair,
            None => {
                proof {
                    assert(!entry_good(text@, i as int));
                    assert(entry_bad(text@, i as int, LogError::Parse("invalid entry encoding")));
                    assert((forall|j: int| 0 <= j < i as int ==> entry_good(text@, j))
                        && entry_bad(text@, i as int, LogError::Parse("invalid entry encoding")));
                }
                return Err(LogError::Parse("invalid entry encoding"));
            }
        };
        let leaf = match b64_decode(pair.0.as_str()) {
            Some(b) => b,
            None => {
                proof {
                    assert(spec_entry_source(text@, i as int) is None);
                    assert(!entry_good(text@, i as int));
                    assert(entry_bad(text@, i as int, LogError::Parse("invalid leaf encoding")));
                    assert((forall|j: int| 0 <= j < i as int ==> entry_good(text@, j))
                        && entry_bad(text@, i as int, LogError::Parse("invalid leaf encoding")));
                }
                return Err(LogError::Parse("invalid leaf encoding"));
            }
        };
        let extra = match b64_decode(pair.1.as_str()) {
            Some(b) => b,
            None => {
                proof {
                    assert(spec_entry_source(text@, i as int) is None);
                    assert(!entry_good(text@, i as int));
                    assert(entry_bad(text@, i as int, LogError::Parse("invalid extra encoding")));
                    assert((forall|j: int| 0 <= j < i as int ==> entry_good(text@, j))
                        && entry_bad(text@, i as int, LogError::Parse("invalid extra encoding")));
                }
                return Err(LogError::Parse("invalid extra encoding"));
            }
        };
        proof {
            assert(spec_entry_source(text@, i as int) == Some((leaf@, extra@)));
        }
        let entry = match parse_log_entry(leaf.as_slice(), extra.as_slice()) {
            Ok(entry) => entry,
            Err(e) => {
                proof {
                    assert(!entry_good(text@, i as int));
                    assert(entry_bad(text@, i as int, e));
                    assert((forall|j: int| 0 <= j < i as int ==> entry_good(text@, j))
                        && entry_bad(text@, i as int, e));
                }
                return Err(e);
            }
        };
        out.push(entry);
    }
    Ok(out)
}

/// Interprets a get-entries response: on 200 the entries decoded out of the
/// body, on 429 the rate limit with the Retry-After delay, terminal errors
/// for the other 4xx and for 5xx, and everything else (400 included)
/// unhandled.
pub fn interpret_log_entries(status: u16, retry_after: Option<&str>, now: i64, body: &str) -> (r:
    Result<Response<Vec<Entry>>, StreamError>)
    ensures
        status == 200 && spec_entries_ok(body@) ==> r is Ok && r->Ok_0 is Data
            && r->Ok_0->Data_0@.len() == entries_count_of(body@).unwrap() && (forall|i: int|
            0 <= i < r->Ok_0->Data_0@.len() ==> entry_matches(
                #[trigger] r->Ok_0->Data_0@[i],
                spec_entry_outcome(
                    spec_entry_source(body@, i).unwrap().0,
                    spec_entry_source(body@, i).unwrap().1,
                )->Ok_0.0,
                spec_entry_outcome(
                    spec_entry_source(body@, i).unwrap().0,
                    spec_entry_source(body@, i).unwrap().1,
                )->Ok_0.1,
            )),
        status == 200 && !spec_entries_ok(body@) ==> r is Err && r->Err_0 is Log,
        status == 429 ==> r is Ok && r->Ok_0 == Response::<Vec<Entry>>::Limited(
            spec_retry_after_millis(opt_str_view(retry_after), now),
        ),
        status != 200 && status != 429 && 401 <= status <= 499 ==> r is Err && r->Err_0
            == StreamError::Response(ResponseError::Client(status)),
        500 <= status <= 599 ==> r is Err && r->Err_0 == StreamError::Response(
            ResponseError::Server(status),
        ),
        status != 200 && status != 429 && !(401 <= status <= 599) ==> r is Ok && r->Ok_0
            == Response::<Vec<Entry>>::Unhandled(status),
{
    if status == 200 {
        match read_log_entries(body) {
            Ok(entries) => Ok(Response::Data(entries)),
            Err(e) => Err(StreamError::Log(e)),
        }
    } else if status == 429 {
        Ok(Response::Limited(retry_after_millis(retry_after, now)))
    } else if status >= 401 && status <= 499 {
        Err(StreamError::Response(ResponseError::Client(status)))
    } else if status >= 500 && status <= 599 {
        Err(StreamError::Response(ResponseError::Server(status)))
    } else {
        Ok(Response::Unhandled(status))
    }
}

} // verus!
