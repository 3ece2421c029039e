//! Building HTTP requests and polling for their outcome.
use vstd::prelude::*;
use vstd::string::StringExecFns;

verus! {

/// The HTTP verb of a request.
#[derive(Debug, Clone, Copy, PartialEq, Eq, Structural)]
pub enum Method {
    Post,
    Put,
    Get,
    Delete,
}

/// The integer that the cooperative host uses for each verb.
pub open spec fn scheme_of(m: Method) -> int {
    match m {
        Method::Post => 0,
        Method::Put => 1,
        Method::Get => 2,
        Method::Delete => 3,
    }
}

impl Method {
    /// The host's integer code of this verb.
    pub fn scheme(self) -> (r: i32)
        ensures
            r as int == scheme_of(self),
    {
        match self {
            Method::Post => 0,
            Method::Put => 1,
            Method::Get => 2,
            Method::Delete => 3,
        }
    }
}

/// The ways a request can fail.
#[derive(Debug)]
pub enum HttpError {
    /// The request could not be made or sent locally.
    IOError,
    /// The payload arrived but is not UTF-8 text.
    NotStrError,
    /// The HTTP engine reported a failure; its detail is kept.
    UreqError(ureq::Error),
}

/// Declares `ureq::Error`, the HTTP engine's error, carried through unread.
#[verifier::external_type_specification]
#[verifier::external_body]
pub struct ExUreqError(ureq::Error);

impl From<ureq::Error> for HttpError {
    fn from(error: ureq::Error) -> (r: HttpError) {
        HttpError::UreqError(error)
    }
}

impl vstd::std_specs::convert::FromSpecImpl<ureq::Error> for HttpError {
    open spec fn obeys_from_spec() -> bool {
        true
    }

    open spec fn from_spec(v: ureq::Error) -> HttpError {
        HttpError::UreqError(v)
    }
}

/// Relies on `Display` of `ureq::Error`: the engine's own description.
#[verifier::external_body]
fn ureq_error_text(error: &ureq::Error) -> (r: String) {
    error.to_string()
}

impl HttpError {
    /// A line of text that describes the error.
    pub fn message(&self) -> (r: String)
        ensures
            self is IOError ==> r@ == "IOError"@,
            self is NotStrError ==> r@ == "Received bytes that were not a string"@,
            self is UreqError ==> r@.len() >= 12 && r@.subrange(0, 12) == "Ureq error: "@,
    {
        match self {
            HttpError::IOError => String::from_str("IOError"),
            HttpError::NotStrError => String::from_str("Received bytes that were not a string"),
            HttpError::UreqError(error) => {
                let mut text = String::from_str("Ureq error: ");
                let detail = ureq_error_text(error);
                text.append(detail.as_str());
                proof {
                    reveal_strlit("Ureq error: ");
                    assert(text@.subrange(0, 12) =~= "Ureq error: "@);
                }
                text
            },
        }
    }
}

/// A name/value pair as the contracts see it.
pub type PairSpec = (Seq<char>, Seq<char>);

/// The abstract content of a request under construction.
pub struct RequestSpec {
    pub url: Seq<char>,
    pub method: Method,
    pub headers: Seq<PairSpec>,
    pub query: Seq<PairSpec>,
    pub body: Option<Seq<char>>,
}

/// The pairs of strings as pairs of character sequences.
pub open spec fn pairs_view(v: Seq<(String, String)>) -> Seq<PairSpec> {
    v.map_values(|p: (String, String)| (p.0@, p.1@))
}

/// Accumulates the parts of a request before it is sent.
pub struct RequestBuilder {
    url: String,
    method: Method,
    headers: Vec<(String, String)>,
    query: Vec<(String, String)>,
    body: Option<String>,
}

impl View for RequestBuilder {
    type V = RequestSpec;

    closed spec fn view(&self) -> RequestSpec {
        RequestSpec {
            url: self.url@,
            method: self.method,
            headers: pairs_view(self.headers@),
            query: pairs_view(self.query@),
            body: match self.body {
                Some(b) => Some(b@),
                None => None,
            },
        }
    }
}

impl RequestBuilder {
    /// A `Get` request of `url`, with no header, no query and no body.
    pub fn new(url: &str) -> (r: Self)
        ensures
            r@.url == url@,
            r@.method == Method::Get,
            r@.headers == Seq::<PairSpec>::empty(),
            r@.query == Seq::<PairSpec>::empty(),
            r@.body is None,
    {
        let r = RequestBuilder {
            url: url.to_owned(),
            method: Method::Get,
            headers: Vec::new(),
            query: Vec::new(),
            body: None,
        };
        assert(pairs_view(r.headers@) =~= Seq::<PairSpec>::empty());
        assert(pairs_view(r.query@) =~= Seq::<PairSpec>::empty());
        r
    }

    /// Sets the verb; everything else is kept.
    pub fn method(self, method: Method) -> (r: Self)
        ensures
            r@.method == method,
            r@.url == self@.url,
            r@.headers == self@.headers,
            r@.query == self@.query,
            r@.body == self@.body,
    {
        RequestBuilder { method, ..self }
    }

    /// Appends a header after those already given, duplicates included.
    pub fn header(self, header: &str, value: &str) -> (r: Self)
        ensures
            r@.headers == self@.headers.push((header@, value@)),
            r@.url == self@.url,
            r@.method == self@.method,
            r@.query == self@.query,
            r@.body == self@.body,
    {
        let mut headers = self.headers;
        let ghost before = headers@;
        headers.push((header.to_owned(), value.to_owned()));
        assert(pairs_view(headers@) =~= pairs_view(before).push((header@, value@)));
        RequestBuilder { headers, ..self }
    }

    /// Appends a query parameter after those already given, duplicates included.
    pub fn query(self, key: &str, value: &str) -> (r: Self)
        ensures
            r@.query == self@.query.push((key@, value@)),
            r@.url == self@.url,
            r@.method == self@.method,
            r@.headers == self@.headers,
            r@.body == self@.body,
    {
        let mut query = self.query;
        let ghost before = query@;
        query.push((key.to_owned(), value.to_owned()));
        assert(pairs_view(query@) =~= pairs_view(before).push((key@, value@)));
        RequestBuilder { query, ..self }
    }

    /// Sets the body, replacing any earlier one.
    pub fn body(self, body: &str) -> (r: Self)
        ensures
            r@.body == Some(body@),
            r@.url == self@.url,
            r@.method == self@.method,
            r@.headers == self@.headers,
            r@.query == self@.query,
    {
        RequestBuilder { body: Some(body.to_owned()), ..self }
    }
}

/// `key=value`, written verbatim.
pub open spec fn pair_text(p: PairSpec) -> Seq<char> {
    p.0 + seq!['='] + p.1
}

/// The pairs joined by `&`, in order, each written as `key=value`.
pub open spec fn query_text(q: Seq<PairSpec>) -> Seq<char>
    decreases q.len(),
{
    if q.len() == 0 {
        Seq::empty()
    } else if q.len() == 1 {
        pair_text(q[0])
    } else {
        query_text(q.drop_last()) + seq!['&'] + pair_text(q.last())
    }
}

/// The address the cooperative host is asked for: the url, then `?` and the
/// query text where there is a query.
pub open spec fn full_url(r: RequestSpec) -> Seq<char> {
    if r.query.len() == 0 {
        r.url
    } else {
        r.url + seq!['?'] + query_text(r.query)
    }
}

/// The body handed to the cooperative host: the body, or nothing.
pub open spec fn body_or_empty(r: RequestSpec) -> Seq<char> {
    match r.body {
        Some(b) => b,
        None => Seq::empty(),
    }
}

impl RequestBuilder {
    /// The url with the query parameters appended, unencoded, in order.
    pub fn full_url(&self) -> (r: String)
        ensures
            r@ == full_url(self@),
    {
        let mut url = self.url.clone();
        let n = self.query.len();
        if n == 0 {
            return url;
        }
        let mut text = String::new();
        let mut i: usize = 0;
        while i < n
            invariant
                n == self.query@.len(),
                0 <= i <= n,
                text@ == query_text(pairs_view(self.query@).subrange(0, i as int)),
            decreases n - i,
        {
            let ghost q = pairs_view(self.query@);
            let ghost before = text@;
            if i > 0 {
                text.append("&");
            }
            text.append(self.query[i].0.as_str());
            text.append("=");
            text.append(self.query[i].1.as_str());
            proof {
                reveal_strlit("&");
                reveal_strlit("=");
                assert(q[i as int] == (self.query@[i as int].0@, self.query@[i as int].1@));
                let next = q.subrange(0, i + 1);
                assert(next.drop_last() =~= q.subrange(0, i as int));
                assert(next.last() == q[i as int]);
                if i == 0 {
                    assert(text@ =~= pair_text(q[0]));
                } else {
                    assert(text@ =~= before + seq!['&'] + pair_text(q[i as int]));
                }
            }
            i = i + 1;
        }
        proof {
            assert(pairs_view(self.query@).subrange(0, n as int) =~= pairs_view(self.query@));
        }
        proof {
            reveal_strlit("?");
        }
        url.append("?");
        url.append(text.as_str());
        url
    }

    /// The body, or the empty string where none was given.
    pub fn body_text(&self) -> (r: String)
        ensures
            r@ == body_or_empty(self@),
    {
        match &self.body {
            Some(b) => b.clone(),
            None => String::new(),
        }
    }

    /// The verb.
    pub fn get_method(&self) -> (r: Method)
        ensures
            r == self@.method,
    {
        self.method
    }

    /// The url as given.
    pub fn get_url(&self) -> (r: &str)
        ensures
            r@ == self@.url,
    {
        self.url.as_str()
    }

    /// The headers, in the order they were appended.
    pub fn get_headers(&self) -> (r: &[(String, String)])
        ensures
            pairs_view(r@) == self@.headers,
    {
        self.headers.as_slice()
    }

    /// The query parameters, in the order they were appended.
    pub fn get_query(&self) -> (r: &[(String, String)])
        ensures
            pairs_view(r@) == self@.query,
    {
        self.query.as_slice()
    }

    /// The body, if one was given.
    pub fn get_body(&self) -> (r: Option<&str>)
        ensures
            match r {
                Some(b) => self@.body == Some(b@),
                None => self@.body is None,
            },
    {
        match &self.body {
            Some(b) => Some(b.as_str()),
            None => None,
        }
    }
}

/// Appending a query parameter extends the query text by that parameter,
/// after a `&` where there were others: order and repeats are kept, nothing
/// is merged or dropped.
pub proof fn lemma_query_append(q: Seq<PairSpec>, key: Seq<char>, value: Seq<char>)
    ensures
        query_text(q.push((key, value))) == if q.len() == 0 {
            pair_text((key, value))
        } else {
            query_text(q) + seq!['&'] + pair_text((key, value))
        },
{
    let r = q.push((key, value));
    assert(r.drop_last() =~= q);
}

/// Each appended header is kept as the last one, after all earlier ones,
/// whether or not its name was seen before.
pub proof fn lemma_headers_append(hs: Seq<PairSpec>, name: Seq<char>, value: Seq<char>)
    ensures
        hs.push((name, value)).len() == hs.len() + 1,
        hs.push((name, value)).subrange(0, hs.len() as int) == hs,
        hs.push((name, value)).last() == (name, value),
{
    assert(hs.push((name, value)).subrange(0, hs.len() as int) =~= hs);
}

/// What `String::from_utf8` makes of the bytes: their text where they are
/// valid UTF-8, nothing otherwise.
pub uninterp spec fn utf8_text(b: Seq<u8>) -> Option<Seq<char>>;

/// Relies on `String::from_utf8`: it succeeds on valid UTF-8 alone, and the
/// text depends on the bytes alone.
#[verifier::external_body]
fn decode_utf8(bytes: Vec<u8>) -> (r: Option<String>)
    ensures
        match r {
            Some(s) => utf8_text(bytes@) == Some(s@),
            None => utf8_text(bytes@) is None,
        },
        bytes@.len() == 0 ==> r is Some,
{
    String::from_utf8(bytes).ok()
}

/// One poll of the transport: nothing yet, or its single outcome.
pub type Polled = Option<Result<Vec<u8>, HttpError>>;

/// The view of a poll, with the payload as a sequence of bytes.
pub open spec fn polled_view(p: Polled) -> Option<Result<Seq<u8>, HttpError>> {
    match p {
        Some(Ok(b)) => Some(Ok(b@)),
        Some(Err(e)) => Some(Err(e)),
        None => None,
    }
}

/// The view of a text result.
pub open spec fn text_view(r: Option<Result<String, HttpError>>) -> Option<Result<Seq<char>, HttpError>> {
    match r {
        Some(Ok(s)) => Some(Ok(s@)),
        Some(Err(e)) => Some(Err(e)),
        None => None,
    }
}

/// The view of a byte result.
pub open spec fn bytes_view(r: Option<Vec<u8>>) -> Option<Seq<u8>> {
    match r {
        Some(b) => Some(b@),
        None => None,
    }
}

/// What the text path answers to a poll: pending stays pending, an error is
/// passed on, a payload is its text or `NotStrError`.
pub open spec fn text_outcome(p: Option<Result<Seq<u8>, HttpError>>) -> Option<Result<Seq<char>, HttpError>> {
    match p {
        None => None,
        Some(Err(e)) => Some(Err(e)),
        Some(Ok(b)) => match utf8_text(b) {
            Some(t) => Some(Ok(t)),
            None => Some(Err(HttpError::NotStrError)),
        },
    }
}

/// What the byte path answers to a poll: the payload, or nothing.
pub open spec fn bytes_outcome(p: Option<Result<Seq<u8>, HttpError>>) -> Option<Seq<u8>> {
    match p {
        Some(Ok(b)) => Some(b),
        _ => None,
    }
}

/// The text path's answer to one poll.
pub fn text_of_polled(polled: Polled) -> (r: Option<Result<String, HttpError>>)
    ensures
        text_view(r) == text_outcome(polled_view(polled)),
{
    match polled {
        None => None,
        Some(Err(e)) => Some(Err(e)),
        Some(Ok(bytes)) => {
            match decode_utf8(bytes) {
                Some(s) => Some(Ok(s)),
                None => Some(Err(HttpError::NotStrError)),
            }
        },
    }
}

/// The byte path's answer to one poll.
pub fn bytes_of_polled(polled: Polled) -> (r: Option<Vec<u8>>)
    ensures
        bytes_view(r) == bytes_outcome(polled_view(polled)),
{
    match polled {
        Some(Ok(bytes)) => Some(bytes),
        _ => None,
    }
}

/// While the transport has not completed, both paths answer pending, never
/// an error.
pub proof fn lemma_pending_answers_pending()
    ensures
        text_outcome(None) is None,
        bytes_outcome(None) is None,
{
}

/// A valid UTF-8 payload reaches the text path as its text.
pub proof fn lemma_text_payload(b: Seq<u8>)
    requires
        utf8_text(b) is Some,
    ensures
        text_outcome(Some(Ok(b))) == Some(Ok::<Seq<char>, HttpError>(utf8_text(b)->Some_0)),
        bytes_outcome(Some(Ok(b))) == Some(b),
{
}

/// A payload that is not UTF-8 gives `NotStrError` on the text path and the
/// raw bytes on the byte path: neither depends on the other.
pub proof fn lemma_non_text_payload(b: Seq<u8>)
    requires
        utf8_text(b) is None,
    ensures
        text_outcome(Some(Ok(b))) == Some(Err::<Seq<char>, HttpError>(HttpError::NotStrError)),
        bytes_outcome(Some(Ok(b))) == Some(b),
{
}

/// Declares `std::sync::mpsc::Receiver`, the end of the channel on which a
/// worker sends its outcome; only polled here.
#[verifier::external_type_specification]
#[verifier::external_body]
#[verifier::reject_recursive_types(T)]
pub struct ExReceiver<T>(std::sync::mpsc::Receiver<T>);

/// Relies on `Receiver::try_recv`: it never blocks; it hands out a value
/// that the worker has sent, or nothing. Which one depends on timing.
#[verifier::external_body]
fn poll_channel(rx: &std::sync::mpsc::Receiver<Result<Vec<u8>, HttpError>>) -> (r: Polled) {
    rx.try_recv().ok()
}

/// A request in flight, whose single outcome a background worker sends.
pub struct Request {
    rx: std::sync::mpsc::Receiver<Result<Vec<u8>, HttpError>>,
    delivered: bool,
}

impl Request {
    /// Whether a poll has already handed out the outcome.
    pub closed spec fn is_delivered(&self) -> bool {
        self.delivered
    }

    /// A request whose outcome will arrive on `rx`, not yet delivered.
    pub fn from_receiver(rx: std::sync::mpsc::Receiver<Result<Vec<u8>, HttpError>>) -> (r: Request)
        ensures
            !r.is_delivered(),
    {
        Request { rx, delivered: false }
    }

    /// Polls once without blocking, and hands the outcome out at most once.
    fn poll_once(&mut self) -> (r: Polled)
        ensures
            old(self).is_delivered() ==> r is None,
            final(self).is_delivered() == (old(self).is_delivered() || r is Some),
    {
        if self.delivered {
            return None;
        }
        let polled = poll_channel(&self.rx);
        if polled.is_some() {
            self.delivered = true;
        }
        polled
    }

    /// The outcome as text: `None` while pending and after it was handed
    /// out; the text, `NotStrError`, or the transport's error once.
    pub fn try_recv_str(&mut self) -> (r: Option<Result<String, HttpError>>)
        ensures
            old(self).is_delivered() ==> r is None,
            final(self).is_delivered() == (old(self).is_delivered() || r is Some),
            exists|p: Polled| text_view(r) == text_outcome(polled_view(p)),
    {
        let polled = self.poll_once();
        let ghost p = polled;
        let r = text_of_polled(polled);
        assert(text_view(r) == text_outcome(polled_view(p)));
        r
    }

    /// The outcome as bytes: `None` while pending, after it was handed out,
    /// or where the transport failed; the payload once otherwise.
    pub fn try_recv_bytes(&mut self) -> (r: Option<Vec<u8>>)
        ensures
            old(self).is_delivered() ==> r is None,
            r is Some ==> final(self).is_delivered(),
            !old(self).is_delivered() && !final(self).is_delivered() ==> r is None,
    {
        let polled = self.poll_once();
        bytes_of_polled(polled)
    }
}

} // verus!
