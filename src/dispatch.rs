//! Dispatch of completed intervals: either only logged, or framed as a
//! time-tracking record and sent to the configured endpoint.
use vstd::prelude::*;
use vstd::string::*;
use crate::timetagger::TimetaggerConfig;
use crate::tracker::{Interval, IntervalView};

verus! {

/// A character that record keys are drawn from: `A-Z`, `a-z` or `0-9`.
pub open spec fn is_key_char(c: char) -> bool {
    ('A' <= c && c <= 'Z') || ('a' <= c && c <= 'z') || ('0' <= c && c <= '9')
}

/// The length of a record key.
pub const KEY_LEN: usize = 8;

/// A record key: eight characters from `A-Z`, `a-z` and `0-9`.
pub open spec fn is_record_key(k: Seq<char>) -> bool {
    k.len() == KEY_LEN && forall|i: int| 0 <= i < k.len() ==> is_key_char(#[trigger] k[i])
}

/// Relies on rand's `DistString::sample_string` for `Alphanumeric`: `len`
/// characters, each drawn from `A-Z`, `a-z` and `0-9`.
#[verifier::external_body]
fn random_alphanumeric(len: usize) -> (r: String)
    ensures
        r@.len() == len,
        forall|i: int| 0 <= i < r@.len() ==> is_key_char(#[trigger] r@[i]),
{
    let mut rng = rand::thread_rng();
    rand::distributions::DistString::sample_string(&rand::distributions::Alphanumeric, &mut rng, len)
}

/// A fresh record key.
pub fn generate_key() -> (r: String)
    ensures
        is_record_key(r@),
{
    random_alphanumeric(KEY_LEN)
}

/// The decimal digit for `d`.
pub open spec fn digit_char(d: nat) -> char {
    seq!['0', '1', '2', '3', '4', '5', '6', '7', '8', '9'][d as int]
}

/// The decimal digits of `n`, most significant first, without leading zeros.
pub open spec fn digits(n: nat) -> Seq<char>
    decreases n,
{
    if n < 10 {
        seq![digit_char(n)]
    } else {
        digits(n / 10).push(digit_char(n % 10))
    }
}

/// `n` written in decimal, with a leading `-` when negative.
pub open spec fn decimal(n: int) -> Seq<char> {
    if n < 0 {
        seq!['-'] + digits((-n) as nat)
    } else {
        digits(n as nat)
    }
}

/// Relies on `i64`'s `ToString`: the number in decimal, `-` before a
/// negative one.
#[verifier::external_body]
fn decimal_text(n: i64) -> (r: String)
    ensures
        r@ == decimal(n as int),
{
    n.to_string()
}

/// What serde_json writes for a JSON string holding `s`, quotes included.
pub uninterp spec fn json_string_of(s: Seq<char>) -> Seq<char>;

/// Relies on serde_json's compact writing of `Value::String`: the text of a
/// JSON string holding `s`.
#[verifier::external_body]
fn json_string(s: &str) -> (r: String)
    ensures
        r@ == json_string_of(s@),
{
    serde_json::Value::String(s.to_string()).to_string()
}

/// `s` with every trailing `/` removed.
pub open spec fn trim_slashes(s: Seq<char>) -> Seq<char>
    decreases s.len(),
{
    if s.len() > 0 && s.last() == '/' {
        trim_slashes(s.drop_last())
    } else {
        s
    }
}

/// The endpoint address with every trailing `/` removed.
pub fn trim_trailing_slashes(url: &str) -> (r: String)
    ensures
        r@ == trim_slashes(url@),
{
    let mut end: usize = url.unicode_len();
    assert(url@.subrange(0, end as int) =~= url@);
    while end > 0 && url.get_char(end - 1) == '/'
        invariant
            end <= url@.len(),
            trim_slashes(url@.subrange(0, end as int)) == trim_slashes(url@),
        decreases end,
    {
        proof {
            assert(url@.subrange(0, end as int).drop_last() =~= url@.subrange(0, end - 1));
        }
        end = end - 1;
    }
    String::from_str(url.substring_char(0, end))
}

/// The body of the request that records an interval, given the JSON texts of
/// its key and label: a JSON array holding one record with key `key_json`,
/// modification time `mt`, start `t1`, end `t2`, description `label_json`
/// and the constant `st` of zero.
pub open spec fn record_text(key_json: Seq<char>, mt: int, t1: int, t2: int, label_json: Seq<char>) -> Seq<char> {
    "[{\"key\":"@ + key_json + ",\"mt\":"@ + decimal(mt) + ",\"t1\":"@ + decimal(t1) + ",\"t2\":"@
        + decimal(t2) + ",\"ds\":"@ + label_json + ",\"st\":0.0}]"@
}

/// The body of the request that records an interval with key `key` and
/// description `label`.
pub open spec fn record_body(key: Seq<char>, mt: int, t1: int, t2: int, label: Seq<char>) -> Seq<char> {
    record_text(json_string_of(key), mt, t1, t2, json_string_of(label))
}

/// Assembles a record body from the JSON texts of its key and label.
pub fn assemble_record(key_json: &str, mt: i64, t1: i64, t2: i64, label_json: &str) -> (r: String)
    ensures
        r@ == record_text(key_json@, mt as int, t1 as int, t2 as int, label_json@),
{
    let mut body = String::from_str("[{\"key\":");
    body.append(key_json);
    body.append(",\"mt\":");
    body.append(decimal_text(mt).as_str());
    body.append(",\"t1\":");
    body.append(decimal_text(t1).as_str());
    body.append(",\"t2\":");
    body.append(decimal_text(t2).as_str());
    body.append(",\"ds\":");
    body.append(label_json);
    body.append(",\"st\":0.0}]");
    body
}

/// Frames the record for an interval as the body of a request.
pub fn frame_record(key: &str, mt: i64, t1: i64, t2: i64, label: &str) -> (r: String)
    ensures
        r@ == record_body(key@, mt as int, t1 as int, t2 as int, label@),
{
    let key_json = json_string(key);
    let label_json = json_string(label);
    assemble_record(key_json.as_str(), mt, t1, t2, label_json.as_str())
}

/// An HTTP `PUT` of a JSON body to `url`, authorised by `auth_token`.
#[derive(Debug)]
pub struct PutRequest {
    pub url: String,
    pub auth_token: String,
    pub body: String,
}

/// The request that records `interval` under `key` at modification time `mt`
/// with the endpoint configuration `config`.
pub open spec fn is_record_request(
    r: PutRequest,
    config: crate::timetagger::TimetaggerConfigView,
    interval: IntervalView,
    key: Seq<char>,
    mt: int,
) -> bool {
    &&& r.url@ == trim_slashes(config.timetagger_url)
    &&& r.auth_token@ == config.api_key
    &&& r.body@ == record_body(key, mt, interval.start, interval.end, interval.side.label)
}

/// The request that records `interval` under some record key, modified at `mt`.
pub open spec fn is_keyed_record_request(
    r: PutRequest,
    config: crate::timetagger::TimetaggerConfigView,
    interval: IntervalView,
    mt: int,
) -> bool {
    exists|key: Seq<char>| is_record_key(key) && #[trigger] is_record_request(r, config, interval, key, mt)
}

/// The remote dispatch variant.
#[derive(Debug)]
pub struct Timetagger {
    pub config: TimetaggerConfig,
}

impl Timetagger {
    /// The request that records `interval` under `key`, modified at `mt`.
    pub fn request_for(&self, interval: &Interval, key: &str, mt: i64) -> (r: PutRequest)
        ensures
            is_record_request(r, self.config@, interval@, key@, mt as int),
    {
        PutRequest {
            url: trim_trailing_slashes(self.config.timetagger_url.as_str()),
            auth_token: self.config.api_key.clone(),
            body: frame_record(key, mt, interval.start, interval.end, interval.side.label.as_str()),
        }
    }

    /// The request that records `interval` under a fresh key, modified at `mt`.
    pub fn handle(&self, interval: &Interval, mt: i64) -> (r: PutRequest)
        ensures
            is_keyed_record_request(r, self.config@, interval@, mt as int),
    {
        let key = generate_key();
        let r = self.request_for(interval, key.as_str(), mt);
        assert(is_record_key(key@) && is_record_request(r, self.config@, interval@, key@, mt as int));
        r
    }
}

/// Where completed intervals go.
#[derive(Debug)]
pub enum Dispatcher {
    /// Intervals are only logged.
    Debug,
    /// Intervals are sent to the configured endpoint.
    Remote(Timetagger),
}

/// The selector that names the remote variant.
pub open spec fn remote_selector() -> Seq<char> {
    "timetagger"@
}

/// Chooses the dispatch variant: the remote one when `selector` names it and
/// both the address and the token are set, the logging one otherwise.
pub fn create_dispatcher(selector: &str, config: TimetaggerConfig) -> (r: Dispatcher)
    ensures
        r is Remote <==> (selector@ == remote_selector() && config@.timetagger_url.len() > 0
            && config@.api_key.len() > 0),
        r matches Dispatcher::Remote(t) ==> t.config@ == config@,
{
    let wanted = String::from_str("timetagger");
    let named = String::from_str(selector) == wanted;
    proof {
        reveal_strlit("timetagger");
    }
    if named && config.is_configured() {
        Dispatcher::Remote(Timetagger { config })
    } else {
        Dispatcher::Debug
    }
}

impl Dispatcher {
    /// The request to send for `interval`, modified at `mt`: none for the
    /// logging variant, a record under a fresh key for the remote one.
    pub fn dispatch(&self, interval: &Interval, mt: i64) -> (r: Option<PutRequest>)
        ensures
            match self {
                Dispatcher::Debug => r is None,
                Dispatcher::Remote(t) => match r {
                    Some(req) => is_keyed_record_request(req, t.config@, interval@, mt as int),
                    None => false,
                },
            },
    {
        match self {
            Dispatcher::Debug => None,
            Dispatcher::Remote(t) => Some(t.handle(interval, mt)),
        }
    }
}

} // verus!
