//! Fetching a resource through the cache: the cache is asked first, and only
//! on a miss the server; what the server sent is stored and returned.
//!
//! The library decides and its caller acts. A [`Fetch`] says what is to be
//! done next; the caller does it and reports what came of it as an
//! [`Outcome`], and [`call_nws_api`] says what follows.

use vstd::prelude::*;
use vstd::string::*;

verus! {

/// Name of the header that every request must carry.
pub const USER_AGENT_HEADER: &'static str = "User-Agent";

/// Value of the header that every request must carry.
pub const USER_AGENT: &'static str = "weathr-app";

/// Name of the response header that holds the expiry of a response.
pub const EXPIRES_HEADER: &'static str = "expires";

/// Why a fetch came to nothing.
#[derive(Clone, Copy, Debug, PartialEq, Eq)]
pub enum FetchError {
    /// The request did not get through.
    Network,
    /// The response body is no text.
    Decode,
    /// The response body is no JSON document.
    Parse,
}

/// What is to be done next for one fetch.
#[derive(Debug, PartialEq, Eq)]
pub enum Fetch {
    /// Read the cache for the URL.
    ReadCache,
    /// Send the request to the server.
    Request,
    /// Store `body` in the cache as the response that expires at `expires`.
    WriteCache { expires: String, body: String },
    /// Done: hand `body` to whoever asked.
    Return { body: String },
    /// Done: there is nothing to hand out.
    Abort { error: FetchError },
}

/// What came of the last thing done.
#[derive(Debug, PartialEq, Eq)]
pub enum Outcome {
    /// The cache was read and gave `body`, which is empty on a miss.
    Cached { body: String },
    /// The server answered with `body`, and with `expires` where it sent an
    /// expiry.
    Response { expires: Option<String>, body: String },
    /// The request did not get through.
    NetworkFailure,
    /// The server answered, but not with text.
    DecodeFailure,
    /// The cache write ended, well or not.
    Stored { success: bool },
}

/// A [`Fetch`] as a mathematical value.
pub enum FetchView {
    ReadCache,
    Request,
    WriteCache { expires: Seq<char>, body: Seq<char> },
    Return { body: Seq<char> },
    Abort { error: FetchError },
}

/// An [`Outcome`] as a mathematical value.
pub enum OutcomeView {
    Cached { body: Seq<char> },
    Response { expires: Option<Seq<char>>, body: Seq<char> },
    NetworkFailure,
    DecodeFailure,
    Stored { success: bool },
}

impl View for Fetch {
    type V = FetchView;

    open spec fn view(&self) -> FetchView {
        match self {
            Fetch::ReadCache => FetchView::ReadCache,
            Fetch::Request => FetchView::Request,
            Fetch::WriteCache { expires, body } => FetchView::WriteCache {
                expires: expires@,
                body: body@,
            },
            Fetch::Return { body } => FetchView::Return { body: body@ },
            Fetch::Abort { error } => FetchView::Abort { error: *error },
        }
    }
}

impl View for Outcome {
    type V = OutcomeView;

    open spec fn view(&self) -> OutcomeView {
        match self {
            Outcome::Cached { body } => OutcomeView::Cached { body: body@ },
            Outcome::Response { expires, body } => OutcomeView::Response {
                expires: expires.deep_view(),
                body: body@,
            },
            Outcome::NetworkFailure => OutcomeView::NetworkFailure,
            Outcome::DecodeFailure => OutcomeView::DecodeFailure,
            Outcome::Stored { success } => OutcomeView::Stored { success: *success },
        }
    }
}

/// The expiry of a response: what its expiry header held, and the empty
/// text, which keeps the response out of the cache, where it had none.
pub open spec fn expiry_of(header: Option<Seq<char>>) -> Seq<char> {
    match header {
        Some(expires) => expires,
        None => Seq::empty(),
    }
}

/// What follows `fetch` once `outcome` has come of it.
///
/// A cached body is returned as it is, and a miss sends the request. A
/// response goes to the cache under its expiry, and is returned whether or
/// not the cache took it. A request that fails, or a body that is no text,
/// ends the fetch. An outcome that does not answer `fetch` changes nothing.
pub open spec fn next(fetch: FetchView, outcome: OutcomeView) -> FetchView {
    match (fetch, outcome) {
        (FetchView::ReadCache, OutcomeView::Cached { body }) => if body.len() > 0 {
            FetchView::Return { body }
        } else {
            FetchView::Request
        },
        (FetchView::Request, OutcomeView::Response { expires, body }) => FetchView::WriteCache {
            expires: expiry_of(expires),
            body,
        },
        (FetchView::Request, OutcomeView::NetworkFailure) => FetchView::Abort {
            error: FetchError::Network,
        },
        (FetchView::Request, OutcomeView::DecodeFailure) => FetchView::Abort {
            error: FetchError::Decode,
        },
        (FetchView::WriteCache { expires, body }, OutcomeView::Stored { success }) => FetchView::Return {
            body,
        },
        _ => fetch,
    }
}

/// A fetch that has ended: nothing follows it.
pub open spec fn finished(fetch: FetchView) -> bool {
    fetch is Return || fetch is Abort
}

/// The status with which a program ends when a fetch came to nothing.
pub open spec fn status_of(error: FetchError) -> int {
    match error {
        FetchError::Network => 10,
        FetchError::Decode => 11,
        FetchError::Parse => 1,
    }
}

/// How every fetch begins: the cache is read.
pub fn begin() -> (fetch: Fetch)
    ensures
        fetch@ == FetchView::ReadCache,
{
    Fetch::ReadCache
}

/// What follows `fetch` once `outcome` has come of it.
pub fn call_nws_api(fetch: Fetch, outcome: Outcome) -> (then: Fetch)
    ensures
        then@ == next(fetch@, outcome@),
{
    match fetch {
        Fetch::ReadCache => match outcome {
            Outcome::Cached { body } => if body.as_str().is_empty() {
                Fetch::Request
            } else {
                Fetch::Return { body }
            },
            _ => Fetch::ReadCache,
        },
        Fetch::Request => match outcome {
            Outcome::Response { expires, body } => match expires {
                Some(expires) => Fetch::WriteCache { expires, body },
                None => Fetch::WriteCache { expires: String::new(), body },
            },
            Outcome::NetworkFailure => Fetch::Abort { error: FetchError::Network },
            Outcome::DecodeFailure => Fetch::Abort { error: FetchError::Decode },
            _ => Fetch::Request,
        },
        Fetch::WriteCache { expires, body } => match outcome {
            Outcome::Stored { success } => Fetch::Return { body },
            _ => Fetch::WriteCache { expires, body },
        },
        Fetch::Return { body } => Fetch::Return { body },
        Fetch::Abort { error } => Fetch::Abort { error },
    }
}

/// The status with which a program ends when a fetch came to nothing: each
/// kind of failure has its own.
pub fn exit_status(error: FetchError) -> (status: i32)
    ensures
        status == status_of(error),
{
    match error {
        FetchError::Network => 10,
        FetchError::Decode => 11,
        FetchError::Parse => 1,
    }
}

/// How far a fetch has come: each thing to do lies further on than the one
/// before it.
pub open spec fn stage(fetch: FetchView) -> nat {
    match fetch {
        FetchView::ReadCache => 0,
        FetchView::Request => 1,
        FetchView::WriteCache { .. } => 2,
        FetchView::Return { .. } => 3,
        FetchView::Abort { .. } => 3,
    }
}

/// Whether `outcome` is what comes of doing `fetch`.
pub open spec fn answers(fetch: FetchView, outcome: OutcomeView) -> bool {
    match fetch {
        FetchView::ReadCache => outcome is Cached,
        FetchView::Request => outcome is Response || outcome is NetworkFailure
            || outcome is DecodeFailure,
        FetchView::WriteCache { .. } => outcome is Stored,
        FetchView::Return { .. } => false,
        FetchView::Abort { .. } => false,
    }
}

/// A fetch never goes back, and every outcome that answers it takes it
/// further. So it ends after three outcomes at most, and on its way it
/// reads the cache once, sends at most one request, and writes the cache at
/// most once. It sends none where the cache gave a body, and one where it
/// gave none.
pub proof fn lemma_fetch_advances(fetch: FetchView, outcome: OutcomeView)
    ensures
        stage(fetch) <= stage(next(fetch, outcome)) <= 3,
        answers(fetch, outcome) ==> stage(fetch) < stage(next(fetch, outcome)),
        !answers(fetch, outcome) ==> next(fetch, outcome) == fetch,
        finished(fetch) <==> stage(fetch) == 3,
        next(fetch, outcome) is Request && !(fetch is Request) ==> fetch is ReadCache
            && outcome is Cached && outcome->Cached_body.len() == 0,
        next(fetch, outcome) is WriteCache && !(fetch is WriteCache) ==> fetch is Request,
{
}

/// What the server sent is handed out whether or not the cache took it.
pub proof fn lemma_response_is_returned(
    expires: Option<Seq<char>>,
    body: Seq<char>,
    success: bool,
)
    ensures
        next(
            next(FetchView::Request, OutcomeView::Response { expires, body }),
            OutcomeView::Stored { success },
        ) == (FetchView::Return { body }),
{
}

/// A fetch that has ended stays as it is, whatever is reported to it.
pub proof fn lemma_finished_is_final(fetch: FetchView, outcome: OutcomeView)
    requires
        finished(fetch),
    ensures
        next(fetch, outcome) == fetch,
{
}

} // verus!
