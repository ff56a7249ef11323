//! Requests to a server, and what comes back, as plain values.
use vstd::prelude::*;
use vstd::string::*;

verus! {

/// The status of a reply: a code from 100 to 999.
#[derive(Debug)]
pub struct Status {
    code: u16,
}

/// The text of a status code: the code and the name that goes with it.
pub uninterp spec fn status_line(code: u16) -> Seq<char>;

/// `StatusCode` as its `Display` prints it, made by `StatusCode::from_u16`, which takes the codes
/// from 100 to 999. The text rests on the code alone.
#[verifier::external_body]
fn status_code_text(code: u16) -> (r: String)
    requires
        100 <= code < 1000,
    ensures
        r@ == status_line(code),
{
    reqwest::StatusCode::from_u16(code).map(|s| s.to_string()).unwrap_or_default()
}

impl Status {
    #[verifier::type_invariant]
    spec fn in_range(self) -> bool {
        100 <= self.code < 1000
    }

    /// The code of the status.
    pub closed spec fn code(self) -> u16 {
        self.code
    }

    /// The status with the given code, if there is one.
    pub fn new(code: u16) -> (r: Option<Status>)
        ensures
            r is Some <==> 100 <= code < 1000,
            r matches Some(s) ==> s.code() == code,
    {
        if 100 <= code && code < 1000 {
            Some(Status { code })
        } else {
            None
        }
    }

    /// Whether the request was received and carried out: the codes from 200 to 299.
    pub fn is_success(&self) -> (r: bool)
        ensures
            r == succeeded(self.code()),
    {
        200 <= self.code && self.code < 300
    }

    /// The text of the status.
    pub fn text(&self) -> (r: String)
        ensures
            r@ == status_line(self.code()),
    {
        proof {
            use_type_invariant(self);
        }
        status_code_text(self.code)
    }
}

/// Whether a code tells of success.
pub open spec fn succeeded(code: u16) -> bool {
    200 <= code < 300
}

/// The method of a request.
#[derive(Debug, Clone, Copy, PartialEq, Eq, Structural)]
pub enum Method {
    Get,
    Post,
}

/// A request to a server.
#[derive(Debug)]
pub struct HttpRequest {
    pub method: Method,
    pub url: String,
    pub headers: Vec<(String, String)>,
    /// The key for bearer authorization.
    pub bearer: Option<String>,
    pub body: Option<String>,
}

/// What an `HttpRequest` says.
pub struct RequestView {
    pub method: Method,
    pub url: Seq<char>,
    pub headers: Seq<(Seq<char>, Seq<char>)>,
    pub bearer: Option<Seq<char>>,
    pub body: Option<Seq<char>>,
}

/// The views of a list of pairs of strings.
pub open spec fn pair_views(pairs: Seq<(String, String)>) -> Seq<(Seq<char>, Seq<char>)> {
    pairs.map_values(|p: (String, String)| (p.0@, p.1@))
}

impl View for HttpRequest {
    type V = RequestView;

    open spec fn view(&self) -> RequestView {
        RequestView {
            method: self.method,
            url: self.url@,
            headers: pair_views(self.headers@),
            bearer: self.bearer.deep_view(),
            body: self.body.deep_view(),
        }
    }
}

/// A reply to a request to a tool server.
pub struct HttpReply {
    /// The session that the server names in the reply.
    pub session: Option<String>,
    pub status: Status,
    /// The body, or why it could not be read.
    pub body: Result<String, String>,
}

/// What became of a request to a tool server.
pub enum HttpOutcome {
    /// No reply came, for the reason given.
    Failed(String),
    Replied(HttpReply),
}

/// What an `HttpOutcome` says.
pub enum OutcomeView {
    Failed(Seq<char>),
    Replied { session: Option<Seq<char>>, code: u16, body: Result<Seq<char>, Seq<char>> },
}

impl View for HttpOutcome {
    type V = OutcomeView;

    open spec fn view(&self) -> OutcomeView {
        match self {
            HttpOutcome::Failed(e) => OutcomeView::Failed(e@),
            HttpOutcome::Replied(r) => OutcomeView::Replied {
                session: r.session.deep_view(),
                code: r.status.code(),
                body: match r.body {
                    Ok(s) => Ok(s@),
                    Err(e) => Err(e@),
                },
            },
        }
    }
}

/// A copy of an optional string.
pub fn copy_option(s: &Option<String>) -> (r: Option<String>)
    ensures
        r == *s,
{
    match s {
        Some(s) => Some(s.clone()),
        None => None,
    }
}

/// What is said of a refusal with the given status line and body.
pub open spec fn refused(line: Seq<char>, body: Seq<char>) -> Seq<char> {
    "HTTP "@ + line + ": "@ + body
}

/// What is said of a refusal with the given status line and body.
pub fn refused_text(line: &str, body: &str) -> (r: String)
    ensures
        r@ == refused(line@, body@),
{
    let mut r = "HTTP ".to_string();
    r.append(line);
    r.append(": ");
    r.append(body);
    r
}

/// A copy of a list of pairs of strings.
pub fn copy_pairs(pairs: &Vec<(String, String)>) -> (r: Vec<(String, String)>)
    ensures
        pair_views(r@) == pair_views(pairs@),
{
    let ghost wanted = pair_views(pairs@);
    let mut out: Vec<(String, String)> = Vec::new();
    let mut i: usize = 0;
    assert(pair_views(out@) =~= wanted.take(0));
    while i < pairs.len()
        invariant
            i <= pairs@.len(),
            wanted == pair_views(pairs@),
            pair_views(out@) == wanted.take(i as int),
        decreases pairs@.len() - i,
    {
        let ghost had = out@;
        let pair = (pairs[i].0.clone(), pairs[i].1.clone());
        out.push(pair);
        assert(pair_views(out@) =~= pair_views(had).push(wanted[i as int]));
        assert(wanted.take(i + 1) =~= wanted.take(i as int).push(wanted[i as int]));
        i += 1;
    }
    assert(wanted.take(i as int) =~= wanted);
    out
}

} // verus!
