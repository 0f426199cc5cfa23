//! Request addressing and the response envelope.
use vstd::prelude::*;

verus! {

/// Every request path is appended to this base.
pub const BASE_URL: &'static str = "https://api.hypixel.net/skyblock/";

/// The query text that the parameters add, each as `&key=value`, in order and
/// without escaping.
pub open spec fn query_of(params: Seq<(&str, String)>) -> Seq<char>
    decreases params.len(),
{
    if params.len() == 0 {
        Seq::empty()
    } else {
        query_of(params.drop_last()) + "&"@ + params.last().0@ + "="@ + params.last().1@
    }
}

/// The address of a request for `path`, charged to `key`, with `params`.
pub open spec fn url_of(path: Seq<char>, key: Seq<char>, params: Seq<(&str, String)>) -> Seq<
    char,
> {
    BASE_URL@ + path + "?key="@ + key + query_of(params)
}

/// The address of a request for `path`, charged to `key`, with `params`
/// appended literally; callers encode parameter values themselves.
pub fn request_url(path: &str, key: &str, params: &Vec<(&str, String)>) -> (r: String)
    ensures
        r@ == url_of(path@, key@, params@),
{
    let mut url = String::from_str(BASE_URL);
    url.append(path);
    url.append("?key=");
    url.append(key);
    let mut i: usize = 0;
    while i < params.len()
        invariant
            i <= params@.len(),
            url@ == BASE_URL@ + path@ + "?key="@ + key@ + query_of(params@.subrange(0, i as int)),
        decreases params@.len() - i,
    {
        let (k, v) = &params[i];
        url.append("&");
        url.append(k);
        url.append("=");
        url.append(v.as_str());
        proof {
            let done = params@.subrange(0, i as int + 1);
            assert(done.drop_last() =~= params@.subrange(0, i as int));
            assert(done.last() == params@[i as int]);
        }
        i = i + 1;
    }
    proof {
        assert(params@.subrange(0, params@.len() as int) =~= params@);
    }
    url
}

/// A failure that the server reported, with its message verbatim.
#[derive(Debug)]
pub struct ApiError(String);

impl View for ApiError {
    type V = Seq<char>;

    closed spec fn view(&self) -> Seq<char> {
        self.0@
    }
}

impl ApiError {
    pub fn new(cause: String) -> (r: ApiError)
        ensures
            r@ == cause@,
    {
        ApiError(cause)
    }

    /// The server's message.
    pub fn cause(&self) -> (r: &str)
        ensures
            r@ == self@,
    {
        self.0.as_str()
    }

    /// The message shown to users: the server's message after a fixed prefix.
    pub fn to_string(&self) -> (r: String)
        ensures
            r@ == "api call failed: "@ + self@,
    {
        let mut s = String::from_str("api call failed: ");
        s.append(self.0.as_str());
        s
    }
}

/// A response: the server's failure, or the payload it sent.
#[derive(Debug)]
pub enum ApiBody<T> {
    Error { cause: ApiError },
    Success(T),
}

impl<T> ApiBody<T> {
    /// The payload, or the server's failure as an error.
    pub fn into_result(self) -> (r: Result<T, ApiError>)
        ensures
            match self {
                ApiBody::Success(v) => r == Ok::<T, ApiError>(v),
                ApiBody::Error { cause } => r matches Err(e) && e@ == cause@,
            },
    {
        match self {
            ApiBody::Success(v) => Ok(v),
            ApiBody::Error { cause } => Err(cause),
        }
    }
}

/// The text of the string field `cause` of the JSON object in `body`; `None`
/// when `body` is no JSON object, has no such field, or holds no string there.
pub uninterp spec fn json_cause(body: Seq<u8>) -> Option<Seq<char>>;

/// Relies on `serde_json::from_slice` into `serde_json::Value`, then
/// `Value::get("cause")` and `Value::as_str`: the string under `cause`, if any.
#[verifier::external_body]
fn cause_in(body: &[u8]) -> (r: Option<String>)
    ensures
        match r {
            Some(c) => json_cause(body@) == Some(c@),
            None => json_cause(body@) is None,
        },
{
    match serde_json::from_slice::<serde_json::Value>(body) {
        Ok(v) => match v.get("cause") {
            Some(c) => c.as_str().map(String::from),
            None => None,
        },
        Err(_) => None,
    }
}

/// The envelope that a probed failure cause stands for: a failure carrying the
/// cause verbatim, or a success whose payload is still to be read.
pub fn envelope_of(cause: Option<String>) -> (r: ApiBody<()>)
    ensures
        match cause {
            Some(c) => r matches ApiBody::Error { cause: e } && e@ == c@,
            None => r is Success,
        },
{
    match cause {
        Some(c) => ApiBody::Error { cause: ApiError(c) },
        None => ApiBody::Success(()),
    }
}

/// Tells a failure envelope from a success: a body whose JSON object holds a
/// string `cause` is the server's failure; any other body is read as payload.
pub fn probe_envelope(body: &[u8]) -> (r: ApiBody<()>)
    ensures
        match json_cause(body@) {
            Some(c) => r matches ApiBody::Error { cause: e } && e@ == c,
            None => r is Success,
        },
{
    envelope_of(cause_in(body))
}

/// Why a request failed.
#[derive(Debug)]
pub enum ClientError {
    /// The connection or the transfer failed.
    Transport(String),
    /// The body was no JSON of the expected shape.
    Decode(String),
    /// The server reported a failure.
    Api(ApiError),
}

} // verus!
